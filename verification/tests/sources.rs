use flang::project::flat::Flat;
use flang::sitter::Span;
use flang::text::{chars_of, join2, join3, remove_all, same_text, skip, starts_with};

fn span_of(file: &str) -> Span {
    Span {
        byte_bounds: (0, 0),
        start: (0, 0),
        end: (0, 0),
        text: String::new(),
        source_file: file.to_string(),
    }
}

#[test]
fn files_are_laid_end_to_end() {
    let mut flat = Flat::new();
    assert!(flat.get_source_file("a.fl".to_string()).is_none());
    flat.add_source_file("let a = 1;".to_string(), "a.fl".to_string());
    flat.add_source_file("b".to_string(), "b.fl".to_string());
    assert_eq!(flat.get_source_file("a.fl".to_string()), Some(("\n\n// a.fl\n".to_string(), 0)));
    assert_eq!(flat.get_source_file("b.fl".to_string()), Some(("\n".to_string(), 20)));
    assert!(flat.get_source_file("c.fl".to_string()).is_none());
    flat.add_source_file(String::new(), "a.fl".to_string());
    assert_eq!(flat.get_source_file("a.fl".to_string()), Some((String::new(), 31)));
}

#[test]
fn parts_are_counted_in_bytes() {
    let mut flat = Flat::new();
    flat.add_source_file("abcde".to_string(), "\u{e9}".to_string());
    assert_eq!(flat.get_source_file("\u{e9}".to_string()), Some(("\n\n// ".to_string(), 0)));
    flat.add_source_file("\u{20ac}".to_string(), "b".to_string());
    assert_eq!(flat.get_source_file("b".to_string()), Some(("\n\n/".to_string(), 13)));
    let mut flat = Flat::new();
    flat.add_source_file("abcdef".to_string(), "\u{e9}".to_string());
    assert_eq!(flat.get_source_file("\u{e9}".to_string()), None);
    let mut flat = Flat::new();
    flat.add_source_file("abcdefg".to_string(), "\u{e9}".to_string());
    assert_eq!(flat.get_source_file("\u{e9}".to_string()), Some(("\n\n// \u{e9}".to_string(), 0)));
}

#[test]
fn occurrences_are_removed() {
    assert_eq!(remove_all("/work/app/src/a.fl", "/work"), "/app/src/a.fl");
    assert_eq!(remove_all("abcabc", "bc"), "aa");
    assert_eq!(remove_all("aaa", "aa"), "a");
    assert_eq!(remove_all("abc", ""), "abc");
    assert_eq!(remove_all("", "a"), "");
    assert_eq!(remove_all("abc", "abcd"), "abc");
    assert_eq!(remove_all("abc", "abc"), "");
    assert_eq!(remove_all("\u{e9}t\u{e9}", "t"), "\u{e9}\u{e9}");
    for (s, p) in [("abcabc", "bc"), ("aaa", "aa"), ("", "a"), ("abab", "ab"), ("xaxbx", "x"), ("aaaa", "aaa")] {
        assert_eq!(remove_all(s, p), s.replace(p, ""), "{} {}", s, p);
    }
}

#[test]
fn file_is_named_from_above_its_package() {
    let span = span_of("/work/app/src/a.fl");
    assert_eq!(span.file_nameish(Some("/work/app")), "app/src/a.fl");
    assert_eq!(span.file_nameish(Some("/work/app/src")), "src/a.fl");
    assert_eq!(span.file_nameish(None), "/work/app/src/a.fl");
    assert_eq!(span.file_nameish(Some("/")), "/work/app/src/a.fl");
    assert_eq!(span.file_nameish(Some("/work")), "orkappsrca.fl");
    assert_eq!(span_of("").file_nameish(Some("/work/app")), "");
}

#[test]
fn text_is_taken_apart_and_put_together() {
    assert_eq!(chars_of("a\u{e9}b"), vec!['a', '\u{e9}', 'b']);
    assert!(chars_of("").is_empty());
    assert_eq!(join2("ab", "cd"), "abcd");
    assert_eq!(join3("a", "", "c"), "ac");
    assert!(starts_with("uses X", "uses "));
    assert!(!starts_with("use", "uses "));
    assert!(starts_with("abc", ""));
    assert!(!starts_with("\u{e9}", "e"));
    assert_eq!(skip("uses X", 5), "X");
    assert_eq!(skip("\u{e9}t\u{e9}", 1), "t\u{e9}");
    assert_eq!(skip("abc", 3), "");
    assert_eq!(skip("abc", 0), "abc");
    assert!(same_text("", ""));
    assert!(same_text("abc", "abc"));
    assert!(same_text("\u{e9}t\u{e9}", "\u{e9}t\u{e9}"));
    assert!(!same_text("abc", "abd"));
    assert!(!same_text("abc", "ab"));
    assert!(!same_text("", "a"));
    assert!(!same_text("e", "\u{e9}"));
}
