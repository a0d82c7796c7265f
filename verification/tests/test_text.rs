use mutator::numeric::is_float_literal;
use mutator::text::{contains, ends_with, get_context, is_valid_span, span, split_lines, starts_with, str_eq};

#[test]
fn float_literals_follow_the_grammar() {
    for text in ["0", "42", "3.14", "1.", ".5", "+1", "-2.5e10", "1e5", "1E-3", "1.e5", "inf", "-INF", "Infinity", "+infinity", "nan", "NaN"] {
        assert!(is_float_literal(text), "{} is a literal", text);
        assert_eq!(is_float_literal(text), text.parse::<f64>().is_ok(), "{}", text);
    }
    for text in ["", ".", "+", "-", "e5", "1e", "1e+", "1_000", "0x10", " 1", "1 ", "1.2.3", "infinit", "nane", "++1", ".e5", "+.", "x", "1f", "١"] {
        assert!(!is_float_literal(text), "{} is no literal", text);
        assert_eq!(is_float_literal(text), text.parse::<f64>().is_ok(), "{}", text);
    }
}

#[test]
fn lines_are_split_as_std_splits_them() {
    for text in ["", "a", "a\n", "a\nb", "a\r\nb\r\n", "\n", "\n\n", "a\r", "a\rb\n", "é\n\nü", "\r\n", "a\n\r"] {
        let expected: Vec<String> = text.lines().map(|l| l.to_string()).collect();
        assert_eq!(split_lines(text), expected, "{:?}", text);
    }
}

#[test]
fn context_never_holds_the_line_itself() {
    let lines: Vec<String> = ["a", "b", "c", "d", "e", "f"].iter().map(|l| l.to_string()).collect();
    let (before, after) = get_context(&lines, 3, 2);
    assert_eq!(before, vec!["b", "c"]);
    assert_eq!(after, vec!["e", "f"]);
    let (before, after) = get_context(&lines, 0, 2);
    assert!(before.is_empty());
    assert_eq!(after, vec!["b", "c"]);
    let (before, after) = get_context(&lines, 5, 2);
    assert_eq!(before, vec!["d", "e"]);
    assert!(after.is_empty());
    let (before, after) = get_context(&lines, 1, 1);
    assert_eq!(before, vec!["a"]);
    assert_eq!(after, vec!["c"]);
    let (before, after) = get_context(&lines, 6, 2);
    assert_eq!(before, vec!["e", "f"]);
    assert!(after.is_empty());
    let (before, after) = get_context(&lines, 9, 2);
    assert!(before.is_empty());
    assert!(after.is_empty());
    let (before, after) = get_context(&lines, usize::MAX, usize::MAX);
    assert_eq!(before.len(), 6);
    assert!(after.is_empty());
    let (before, after) = get_context(&lines, usize::MAX, 2);
    assert!(before.is_empty());
    assert!(after.is_empty());
    let (before, after) = get_context(&lines, 2, 0);
    assert!(before.is_empty());
    assert!(after.is_empty());
}

#[test]
fn text_predicates() {
    assert!(str_eq("", ""));
    assert!(str_eq("abc", "abc"));
    assert!(!str_eq("abc", "abd"));
    assert!(!str_eq("abc", "ab"));
    assert!(starts_with("log.info", "log."));
    assert!(starts_with("x", ""));
    assert!(!starts_with("lo", "log."));
    assert!(ends_with("a.pyc", ".pyc"));
    assert!(!ends_with("a.py", ".pyc"));
    assert!(ends_with("", ""));
    assert!(contains("a SyntaxError b", "SyntaxError"));
    assert!(contains("abc", ""));
    assert!(contains("", ""));
    assert!(contains("abc", "c"));
    assert!(!contains("abc", "cd"));
    assert!(!contains("", "a"));
}

#[test]
fn spans_are_cut_at_character_boundaries() {
    let text = "aéb";
    assert!(is_valid_span(text, 0, 4));
    assert!(is_valid_span(text, 1, 3));
    assert!(is_valid_span(text, 4, 4));
    assert!(!is_valid_span(text, 2, 3));
    assert!(!is_valid_span(text, 0, 2));
    assert!(!is_valid_span(text, 3, 1));
    assert!(!is_valid_span(text, 0, 5));
    assert_eq!(span(text, 1, 3), "é");
    assert_eq!(span(text, 0, 4), "aéb");
    assert_eq!(span(text, 3, 3), "");
}
