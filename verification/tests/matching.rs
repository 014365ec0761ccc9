use word_filter::dictionary::get_matches;
use word_filter::filter::{make_filter, Filterable};

fn words(list: &[&str]) -> Vec<String> {
    list.iter().map(|w| w.to_string()).collect()
}

#[test]
fn filter_holds_each_distinct_letter_once() {
    let filter = make_filter("banana");
    assert_eq!(filter.len(), 3);
    assert!(filter.contains('b'));
    assert!(filter.contains('a'));
    assert!(filter.contains('n'));
    assert!(!filter.contains('c'));
    assert!(filter.len() <= "banana".chars().count());
}

#[test]
fn filter_of_nothing_is_empty() {
    let filter = make_filter("");
    assert_eq!(filter.len(), 0);
    assert!(!filter.contains('a'));
}

#[test]
fn filter_keeps_case_apart() {
    let filter = make_filter("aA");
    assert_eq!(filter.len(), 2);
    assert!(filter.contains('a'));
    assert!(filter.contains('A'));
    assert!(!filter.contains('b'));
}

#[test]
fn filter_takes_letters_beyond_ascii() {
    let filter = make_filter("é\u{1F600}é");
    assert_eq!(filter.len(), 2);
    assert!(filter.contains('é'));
    assert!(filter.contains('\u{1F600}'));
    assert!(!filter.contains('e'));
}

#[test]
fn word_matches_when_every_letter_is_allowed() {
    let filter = make_filter("cat");
    assert!("cat".matches_filter(&filter));
    assert!("act".matches_filter(&filter));
    assert!("tact".matches_filter(&filter));
    assert!(!"cab".matches_filter(&filter));
    assert!(!"dog".matches_filter(&filter));
    assert!(String::from("tat").matches_filter(&filter));
    assert!(!String::from("tab").matches_filter(&filter));
}

#[test]
fn empty_word_matches_any_set() {
    assert!("".matches_filter(&make_filter("abc")));
    assert!("".matches_filter(&make_filter("")));
    assert!(String::new().matches_filter(&make_filter("")));
}

#[test]
fn empty_set_matches_only_the_empty_word() {
    let filter = make_filter("");
    assert!(!"a".matches_filter(&filter));
    assert_eq!(get_matches(&words(&["a", "", "b"]), &filter), words(&[""]));
}

#[test]
fn combining_characters_are_not_normalised() {
    let filter = make_filter("é");
    assert!("é".matches_filter(&filter));
    assert!(!"e\u{301}".matches_filter(&filter));
}

#[test]
fn words_of_allowed_letters_are_kept() {
    let dict = words(&["cat", "dog", "act", "tad"]);
    let result = get_matches(&dict, &make_filter("cat"));
    assert_eq!(result, words(&["cat", "act"]));
    assert_eq!(result.len(), 2);
}

#[test]
fn empty_word_is_kept() {
    let dict = words(&["a", "b", "ab", "ba", ""]);
    let result = get_matches(&dict, &make_filter("a"));
    assert_eq!(result, words(&["a", ""]));
    assert_eq!(result.len(), 2);
}

#[test]
fn empty_dictionary_gives_nothing() {
    let dict: Vec<String> = Vec::new();
    let result = get_matches(&dict, &make_filter("xyz"));
    assert!(result.is_empty());
    assert_eq!(result.len(), 0);
}

#[test]
fn upper_case_is_not_lower_case() {
    let dict = words(&["HELLO", "hello"]);
    let result = get_matches(&dict, &make_filter("helo"));
    assert_eq!(result, words(&["hello"]));
    assert_eq!(result.len(), 1);
}

#[test]
fn matches_keep_order_and_duplicates() {
    let dict = words(&["tab", "at", "bat", "at", "tub", "ta", "at"]);
    let result = get_matches(&dict, &make_filter("ta"));
    assert_eq!(result, words(&["at", "at", "ta", "at"]));
    assert!(result.len() <= dict.len());
}

#[test]
fn filtering_twice_changes_nothing() {
    let dict = words(&["tab", "at", "bat", "", "at", "tub", "ta"]);
    let filter = make_filter("tab");
    let once = get_matches(&dict, &filter);
    let twice = get_matches(&once, &filter);
    assert_eq!(once, words(&["tab", "at", "bat", "", "at", "ta"]));
    assert_eq!(twice, once);
}

#[test]
fn same_inputs_give_same_matches() {
    let dict = words(&["one", "two", "noon", "eon"]);
    let first = get_matches(&dict, &make_filter("one"));
    let second = get_matches(&dict, &make_filter("neo"));
    assert_eq!(first, words(&["one", "noon", "eon"]));
    assert_eq!(first, second);
}
