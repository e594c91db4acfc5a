use blocklist::name::{
    canonical_chars, chars_of, labels_from, split_chars, text_of, to_lower, Name,
};

fn chars(text: &str) -> Vec<char> {
    text.chars().collect()
}

fn canonical(text: &str) -> String {
    text_of(&canonical_chars(&chars(text)))
}

fn labels(text: &str) -> Vec<String> {
    let name = Name::parse(text);
    (0..name.len()).map(|i| text_of(name.label(i))).collect()
}

#[test]
fn lower_case_folds_ascii_letters_only() {
    assert_eq!(to_lower('A'), 'a');
    assert_eq!(to_lower('M'), 'm');
    assert_eq!(to_lower('Z'), 'z');
    assert_eq!(to_lower('a'), 'a');
    assert_eq!(to_lower('@'), '@');
    assert_eq!(to_lower('['), '[');
    assert_eq!(to_lower('0'), '0');
    assert_eq!(to_lower('.'), '.');
    assert_eq!(to_lower('*'), '*');
    assert_eq!(to_lower('É'), 'É');
}

#[test]
fn text_and_characters_convert_both_ways() {
    assert_eq!(chars_of("ab.c"), vec!['a', 'b', '.', 'c']);
    assert_eq!(chars_of(""), Vec::<char>::new());
    assert_eq!(text_of(&vec!['a', 'b']), "ab");
    assert_eq!(text_of(&vec!['x', 'é', '.']), "xé.");
    assert_eq!(text_of(&Vec::new()), "");
}

#[test]
fn canonical_form_is_lower_case_with_terminator() {
    assert_eq!(canonical("Example.COM"), "example.com.");
    assert_eq!(canonical("example.com."), "example.com.");
    assert_eq!(canonical(""), ".");
    assert_eq!(canonical("."), ".");
    assert_eq!(canonical("a.."), "a..");
    assert_eq!(canonical("*.Tracker.Example.com"), "*.tracker.example.com.");
}

#[test]
fn split_cuts_at_every_separator() {
    let text = chars("a.bc..d");
    let pieces: Vec<String> = split_chars(&text, 0, text.len(), '.').iter().map(text_of).collect();
    assert_eq!(pieces, vec!["a", "bc", "", "d"]);
    let pieces: Vec<String> = split_chars(&text, 2, 5, '.').iter().map(text_of).collect();
    assert_eq!(pieces, vec!["bc", ""]);
    let pieces: Vec<String> = split_chars(&text, 3, 3, '.').iter().map(text_of).collect();
    assert_eq!(pieces, vec![""]);
    let lines = chars("one\ntwo\n");
    let pieces: Vec<String> =
        split_chars(&lines, 0, lines.len(), '\n').iter().map(text_of).collect();
    assert_eq!(pieces, vec!["one", "two", ""]);
}

#[test]
fn labels_run_from_the_most_specific_to_the_top() {
    assert_eq!(labels("a.example.com."), vec!["a", "example", "com"]);
    assert_eq!(labels("A.Example.Com"), vec!["a", "example", "com"]);
    assert_eq!(labels("com"), vec!["com"]);
}

#[test]
fn root_has_no_labels() {
    assert_eq!(labels("."), Vec::<String>::new());
    assert_eq!(labels(""), Vec::<String>::new());
    assert_eq!(Name::parse(".").len(), 0);
}

#[test]
fn empty_labels_are_kept() {
    assert_eq!(labels("a..b"), vec!["a", "", "b"]);
    assert_eq!(labels("a.."), vec!["a", ""]);
    assert_eq!(labels(".."), vec!["", ""]);
}

#[test]
fn labels_can_start_behind_a_prefix() {
    let text = chars("*.example.com.");
    let found: Vec<String> = labels_from(&text, 2).iter().map(text_of).collect();
    assert_eq!(found, vec!["example", "com"]);
    let found = labels_from(&text, text.len());
    assert!(found.is_empty());
    let name = Name::from_canonical(&text, 2);
    assert_eq!(name.len(), 2);
    assert_eq!(text_of(name.label(0)), "example");
    assert_eq!(text_of(name.label(1)), "com");
}

#[test]
fn names_that_differ_in_case_or_terminator_are_equal() {
    assert_eq!(Name::parse("Example.COM"), Name::parse("example.com."));
    assert_eq!(Name::from_chars(&chars("WWW.example.com")), Name::parse("www.example.com."));
    assert_ne!(Name::parse("example.com"), Name::parse("example.org"));
}
