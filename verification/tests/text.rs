use onvif::text::{
    chars_of, final_segment, local_part, space, split_words, starts_with, text_of, trim,
};

fn words_of(items: &[&str]) -> Vec<String> {
    items.iter().map(|s| s.to_string()).collect()
}

#[test]
fn white_space_is_space_tab_and_line_ends() {
    assert!(space(' '));
    assert!(space('\t'));
    assert!(space('\n'));
    assert!(space('\r'));
    assert!(!space('a'));
    assert!(!space('\u{a0}'));
    assert!(!space('\u{b}'));
}

#[test]
fn chars_of_keeps_every_character() {
    assert_eq!(chars_of("a/é:z"), vec!['a', '/', 'é', ':', 'z']);
    assert_eq!(chars_of(""), Vec::<char>::new());
}

#[test]
fn text_of_takes_the_range() {
    let chars = chars_of("discovery");
    assert_eq!(text_of(&chars, 0, 9), "discovery");
    assert_eq!(text_of(&chars, 3, 6), "cov");
    assert_eq!(text_of(&chars, 4, 4), "");
}

#[test]
fn starts_with_looks_at_the_beginning_only() {
    assert!(starts_with(&chars_of("onvif://x/name/N"), &chars_of("onvif://x/name/")));
    assert!(starts_with(&chars_of("abc"), &chars_of("")));
    assert!(starts_with(&chars_of("abc"), &chars_of("abc")));
    assert!(!starts_with(&chars_of("ab"), &chars_of("abc")));
    assert!(!starts_with(&chars_of("xabc"), &chars_of("abc")));
}

#[test]
fn split_words_splits_at_any_run_of_white_space() {
    assert_eq!(split_words("a b"), words_of(&["a", "b"]));
    assert_eq!(split_words("  one\ttwo\r\n three  "), words_of(&["one", "two", "three"]));
    assert_eq!(split_words("single"), words_of(&["single"]));
}

#[test]
fn split_words_of_nothing_is_nothing() {
    assert_eq!(split_words(""), Vec::<String>::new());
    assert_eq!(split_words(" \n\t "), Vec::<String>::new());
}

#[test]
fn split_words_joined_texts_give_both_lists() {
    let a = "tdn:NetworkVideoTransmitter  tds:Device";
    let b = " dn:NetworkVideoDisplay";
    let mut expected = split_words(a);
    expected.extend(split_words(b));
    assert_eq!(split_words(&format!("{}\n{}", a, b)), expected);
    assert_eq!(expected.len(), 3);
}

#[test]
fn trim_drops_white_space_at_both_ends_only() {
    assert_eq!(trim("  urn:uuid:1 2 \n"), "urn:uuid:1 2");
    assert_eq!(trim("x"), "x");
    assert_eq!(trim(""), "");
    assert_eq!(trim(" \t\r\n"), "");
}

#[test]
fn local_part_follows_the_first_colon() {
    assert_eq!(local_part("d:Types"), "Types");
    assert_eq!(local_part("SOAP-ENV:Header"), "Header");
    assert_eq!(local_part("Types"), "Types");
    assert_eq!(local_part("a:b:c"), "b:c");
    assert_eq!(local_part(":x"), "x");
    assert_eq!(local_part("x:"), "");
    assert_eq!(local_part(""), "");
}

#[test]
fn final_segment_follows_the_last_slash() {
    assert_eq!(final_segment(&chars_of("onvif://www.onvif.org/location/country/china")), "china");
    assert_eq!(final_segment(&chars_of("plain")), "plain");
    assert_eq!(final_segment(&chars_of("a/b/")), "");
    assert_eq!(final_segment(&chars_of("")), "");
}
