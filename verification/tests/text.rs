use runner::text::find_from;
use runner::text::matches_at;
use runner::text::same_text;
use runner::text::split_on;

#[test]
fn split_agrees_with_the_standard_library() {
    let texts = [
        "", ".", "..", "1.2.3", ".1.2", "1.2.", "a", "a.b", "___", "a___b", "a____b", "a______b",
        "é.ü.ß", "ab.ab.ab",
    ];
    let separators = [".", "___", "ab", "é", "__"];
    for text in texts {
        for separator in separators {
            let expected: Vec<String> = text.split(separator).map(|s| s.to_owned()).collect();
            assert_eq!(split_on(text, separator), expected, "{:?} at {:?}", text, separator);
        }
    }
}

#[test]
fn split_of_a_text_without_the_separator_is_the_text() {
    assert_eq!(split_on("abc", "."), vec!["abc".to_owned()]);
    assert_eq!(split_on("", "."), vec!["".to_owned()]);
}

#[test]
fn find_gives_the_leftmost_place_in_characters() {
    assert_eq!(find_from("a___b___c", "___", 0), Some(1));
    assert_eq!(find_from("a___b___c", "___", 2), Some(5));
    assert_eq!(find_from("a___b___c", "___", 6), None);
    assert_eq!(find_from("é___b", "___", 0), Some(1));
    assert_eq!(find_from("abc", "", 3), Some(3));
    assert_eq!(find_from("abc", "", 4), None);
    assert_eq!(find_from("", "a", 0), None);
}

#[test]
fn matches_at_looks_at_one_place() {
    assert!(matches_at("hello", "ell", 1));
    assert!(!matches_at("hello", "ell", 0));
    assert!(!matches_at("hello", "lo!", 3));
    assert!(!matches_at("hello", "o", 5));
    assert!(matches_at("hello", "", 5));
    assert!(!matches_at("hello", "", 6));
}

#[test]
fn same_text_is_equality_of_the_characters() {
    let texts = ["", "json", "xjson", "jso", "jsonl", "son", "é", "e", "JSON"];
    for a in texts {
        for b in texts {
            assert_eq!(same_text(a, b), a == b, "{:?} {:?}", a, b);
        }
    }
}

#[test]
fn an_empty_separator_cuts_nowhere() {
    assert_eq!(split_on("abc", ""), vec!["abc".to_owned()]);
    assert_eq!(split_on("", ""), vec!["".to_owned()]);
}
