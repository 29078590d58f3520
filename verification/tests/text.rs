use style_resolve::text::{
    chars_of, owned, same_text, split, split_first, starts_with, starts_with_uppercase, text_of,
};

#[test]
fn split_keeps_empty_pieces() {
    assert_eq!(split("a;b;;c;", ';'), vec!["a", "b", "", "c", ""]);
    assert_eq!(split("", ';'), vec![""]);
    assert_eq!(split("no separator", ';'), vec!["no separator"]);
    assert_eq!(split(";", ';'), vec!["", ""]);
}

#[test]
fn split_handles_characters_of_several_bytes() {
    assert_eq!(split("größe:10px", ':'), vec!["größe", "10px"]);
}

#[test]
fn chars_and_text_are_inverse() {
    let v = chars_of("déjà vu");
    assert_eq!(v.len(), 7);
    assert_eq!(text_of(&v), "déjà vu");
    assert_eq!(owned("style"), "style".to_string());
}

#[test]
fn same_text_compares_whole_strings() {
    assert!(same_text("style", "style"));
    assert!(!same_text("style", "styles"));
    assert!(!same_text("style", "stylE"));
    assert!(same_text("", ""));
}

#[test]
fn starts_with_checks_the_prefix() {
    assert!(starts_with("@tarojs/components", "@tarojs/components"));
    assert!(starts_with("@tarojs/components/types", "@tarojs/components"));
    assert!(!starts_with("@tarojs/component", "@tarojs/components"));
    assert!(starts_with("anything", ""));
}

#[test]
fn uppercase_start_follows_the_first_character() {
    assert!(starts_with_uppercase("View"));
    assert!(!starts_with_uppercase("view"));
    assert!(!starts_with_uppercase(""));
    assert!(starts_with_uppercase("Élan"));
    assert!(!starts_with_uppercase("_View"));
}

#[test]
fn split_first_splits_at_the_first_separator_only() {
    let pair = |a: &str, b: &str| Some((a.to_string(), b.to_string()));
    assert_eq!(
        split_first("background:url(http://a/b.png)", ':'),
        pair("background", "url(http://a/b.png)")
    );
    assert_eq!(split_first("a:b", ':'), pair("a", "b"));
    assert_eq!(split_first(":b", ':'), pair("", "b"));
    assert_eq!(split_first("a:", ':'), pair("a", ""));
    assert_eq!(split_first(":", ':'), pair("", ""));
    assert_eq!(split_first("größe:ä:ö", ':'), pair("größe", "ä:ö"));
    assert_eq!(split_first("no separator", ':'), None);
    assert_eq!(split_first("", ':'), None);
}
