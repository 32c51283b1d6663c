use isotopia::text::{
    chars_of, debug_optional, join, same_text, split_entries, split_off_first, white_space,
};

#[test]
fn white_space_is_that_of_std() {
    for c in '\0'..=char::MAX {
        assert_eq!(white_space(c), c.is_whitespace(), "{c:?}");
    }
}

#[test]
fn texts_are_compared() {
    assert!(same_text("", ""));
    assert!(same_text("aé\u{10ffff}", "aé\u{10ffff}"));
    assert!(!same_text("a", "ab"));
    assert!(!same_text("ab", "a"));
    assert!(!same_text("ab", "aB"));
    assert_eq!(chars_of("aé"), vec!['a', 'é']);
}

#[test]
fn texts_are_joined_and_split() {
    let list = vec!["a".to_string(), "".into(), "b".into()];
    assert_eq!(join(&list, ", "), "a, , b");
    assert_eq!(join(&vec![], ", "), "");
    assert_eq!(split_entries("\n a \n\n\tb\r\n\u{3000}\nc d", '\n'), vec!["a", "b", "c d"]);
    assert!(split_entries("", '\n').is_empty());
    assert!(split_entries(" \n ", '\n').is_empty());

    let list = vec!["one".to_string(), "two three".into()];
    assert_eq!(split_entries(&join(&list, "\n"), '\n'), list);
}

#[test]
fn first_word() {
    assert_eq!(split_off_first("abc  file", ' '), Some("abc".to_string()));
    assert_eq!(split_off_first(" abc", ' '), Some(String::new()));
    assert_eq!(split_off_first("abc", ' '), None);
    assert_eq!(split_off_first("é x", ' '), Some("é".to_string()));
}

#[test]
fn debug_format_is_that_of_std() {
    for option in [None, Some("a".to_string()), Some("\"\n\u{0}é'".to_string())] {
        assert_eq!(debug_optional(&option), format!("{option:?}"));
    }
}
