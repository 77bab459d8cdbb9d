use flang::repl::{
    best_candidate, count_differences, get_snippet_from_line, hint, keywords, should_append_semicolon,
    CommandHint,
};

fn names(list: &[&str]) -> Vec<String> {
    list.iter().map(|s| s.to_string()).collect()
}

#[test]
fn semicolon_is_added_to_plain_lines() {
    assert!(should_append_semicolon("let x = 1"));
    assert!(should_append_semicolon("print(1)"));
    assert!(should_append_semicolon(""));
    assert!(should_append_semicolon(" fn f() {}"));
    for line in ["struct A {}", "trait T {}", "fn f() {}", "pub fn", "local x", "impl T", "return 1", "fnord"] {
        assert!(!should_append_semicolon(line), "{}", line);
    }
}

#[test]
fn snippet_is_the_word_being_typed() {
    assert_eq!(get_snippet_from_line("pri"), ("pri".to_string(), 0));
    assert_eq!(get_snippet_from_line("let x = pri"), ("pri".to_string(), 8));
    assert_eq!(get_snippet_from_line("f(a, b"), ("b".to_string(), 5));
    assert_eq!(get_snippet_from_line("a.b.c"), ("c".to_string(), 4));
    assert_eq!(get_snippet_from_line("a;"), (String::new(), 2));
    assert_eq!(get_snippet_from_line(""), (String::new(), 0));
    assert_eq!(get_snippet_from_line("f(\"a b"), ("b".to_string(), 5));
    assert_eq!(get_snippet_from_line("\u{e9} \u{e9}t"), ("\u{e9}t".to_string(), 3));
    assert_eq!(get_snippet_from_line("\u{20ac}\u{e9}.ab"), ("ab".to_string(), 6));
    assert_eq!(get_snippet_from_line("\u{1f600}"), ("\u{1f600}".to_string(), 0));
    assert_eq!(get_snippet_from_line("\u{1f600};"), (String::new(), 5));
    for line in ["pri", "let x = pri", "f(a, b", "a.b.c", "a;", "", "\u{e9} \u{e9}t", "\u{20ac}\u{e9}.ab"] {
        let (snip, cut) = get_snippet_from_line(line);
        assert!(line.ends_with(&snip), "{}", line);
        assert_eq!(cut + snip.len(), line.len(), "{}", line);
        assert!(!snip.contains(['(', ',', ';', ' ', '.']), "{}", line);
        assert!(cut == 0 || line[..cut].ends_with(['(', ',', ';', ' ', '.']), "{}", line);
    }
}

#[test]
fn differences_are_counted_as_far_as_both_go() {
    let count = |a: &str, b: &str| {
        count_differences(&a.chars().collect(), &b.chars().collect())
    };
    assert_eq!(count("abc", "abc"), 0);
    assert_eq!(count("abc", "abd"), 1);
    assert_eq!(count("abc", "xyz"), 3);
    assert_eq!(count("abc", "a"), 0);
    assert_eq!(count("", "abc"), 0);
    assert_eq!(count("print", "let x = pri"), 5);
}

#[test]
fn best_candidate_is_the_first_among_the_nearest() {
    let list = names(&["print", "private", "else", "prime", "pr"]);
    assert_eq!(best_candidate(&list, "pri", "pri"), Some(0));
    assert_eq!(best_candidate(&list, "prim", "prim"), Some(3));
    assert_eq!(best_candidate(&list, "priv", "priv"), Some(1));
    assert_eq!(best_candidate(&list, "x", "x"), None);
    assert_eq!(best_candidate(&list, "", ""), Some(0));
    assert_eq!(best_candidate(&list, "pri", "xri"), Some(0));
    assert_eq!(best_candidate(&names(&["ab", "ax", "ay"]), "a", "ay"), Some(2));
    assert_eq!(best_candidate(&names(&[]), "a", "a"), None);
}

#[test]
fn hint_is_the_rest_of_the_best_candidate() {
    let mut list = names(&["print", "value"]);
    list.extend(keywords());
    assert_eq!(hint(&list, "pri", 3), Some(CommandHint("nt".to_string())));
    assert_eq!(hint(&list, "pri", 1), Some(CommandHint("rint".to_string())));
    assert_eq!(hint(&list, "print", 5), Some(CommandHint(String::new())));
    assert_eq!(hint(&list, "let x = va", 10), Some(CommandHint("lue".to_string())));
    assert_eq!(hint(&list, "e", 1), Some(CommandHint("lse".to_string())));
    assert_eq!(hint(&list, "pri", 0), None);
    assert_eq!(hint(&list, "print(", 6), None);
    assert_eq!(hint(&list, "", 0), None);
    assert_eq!(hint(&list, "zzz", 3), None);
    assert_eq!(hint(&list, "let x = va", 3), None);
    assert_eq!(hint(&list, "pri", 9), None);
    assert_eq!(hint(&names(&["\u{e9}t\u{e9}"]), "\u{20ac} \u{e9}", 6), Some(CommandHint("t\u{e9}".to_string())));
    assert_eq!(hint(&names(&["\u{e9}t\u{e9}"]), "\u{20ac} \u{e9}", 5), None);
    assert_eq!(hint(&names(&["\u{e9}t\u{e9}"]), "\u{20ac} \u{e9}", 4), Some(CommandHint("\u{e9}t\u{e9}".to_string())));
    assert_eq!(hint(&names(&["\u{e9}t\u{e9}"]), "\u{20ac} \u{e9}", 3), None);
    assert_eq!(hint(&names(&["\u{e9}t\u{e9}"]), "\u{20ac} \u{e9}", 9), Some(CommandHint(String::new())));
    assert_eq!(hint(&names(&["\u{e9}t\u{e9}"]), "\u{20ac} \u{e9}", 10), None);
    assert_eq!(hint(&names(&["\tab"]), "\t", 1), None);
    assert_eq!(hint(&names(&["\tab"]), "\ta", 2), Some(CommandHint("b".to_string())));
}

#[test]
fn keywords_are_offered() {
    assert_eq!(keywords(), names(&["let", "fn", "if", "else", "exit"]));
}

#[test]
fn hint_can_be_cut() {
    let h = CommandHint("print".to_string());
    assert_eq!(h.suffix(0), CommandHint("print".to_string()));
    assert_eq!(h.suffix(2), CommandHint("int".to_string()));
    assert_eq!(h.suffix(5), CommandHint(String::new()));
    let h = CommandHint("\u{e9}t\u{e9}".to_string());
    assert_eq!(h.suffix(2), CommandHint("t\u{e9}".to_string()));
    assert_eq!(h.suffix(3), CommandHint("\u{e9}".to_string()));
    assert_eq!(h.suffix(5), CommandHint(String::new()));
    let h = CommandHint("print".to_string());
    assert_eq!(h.display(), "print");
    assert_eq!(h.completion(), Some("print"));
}
