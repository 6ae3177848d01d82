use smart_home::text::{join_strings, sorted_names, split_words, str_eq, str_less, trim};

#[test]
fn trim_removes_unicode_whitespace_at_both_ends() {
    assert_eq!(trim("  a b \t\r\n"), "a b");
    assert_eq!(trim("\u{3000}Кухня\u{a0}"), "Кухня");
    assert_eq!(trim("   "), "");
    assert_eq!(trim(""), "");
}

#[test]
fn split_words_matches_split_whitespace() {
    for s in ["", "  ", "a", " a  b\tc\n", "STATE on 1.5 extra", "\u{2003}x\u{2003}y"] {
        let expected: Vec<String> = s.split_whitespace().map(String::from).collect();
        assert_eq!(split_words(s), expected);
    }
}

#[test]
fn order_and_equality_follow_str() {
    let samples = ["", "a", "ab", "b", "B", "Я", "я", "аб", "а"];
    for a in samples {
        for b in samples {
            assert_eq!(str_less(a, b), a < b, "{a:?} < {b:?}");
            assert_eq!(str_eq(a, b), a == b);
        }
    }
}

#[test]
fn sorted_names_sorts_like_sort() {
    let names: Vec<String> = ["Кухня", "Гостиная", "b", "a", "ab"].iter().map(|s| s.to_string()).collect();
    let mut expected = names.clone();
    expected.sort();
    assert_eq!(sorted_names(&names), expected);
}

#[test]
fn join_strings_puts_the_separator_between_parts() {
    let parts: Vec<String> = vec!["a".into(), "b".into(), "c".into()];
    assert_eq!(join_strings(&parts, ", "), "a, b, c");
    assert_eq!(join_strings(&Vec::new(), ", "), "");
}
