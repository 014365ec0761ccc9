use word_filter::dictionary::{get_matches, make_dictionary, make_dictionary_url, LoadError};
use word_filter::filter::make_filter;
use word_filter::lines::split_lines;

fn words(list: &[&str]) -> Vec<String> {
    list.iter().map(|w| w.to_string()).collect()
}

#[test]
fn lines_end_at_line_feeds() {
    assert_eq!(split_lines("cat\ndog\nact"), words(&["cat", "dog", "act"]));
}

#[test]
fn final_line_feed_adds_no_line() {
    assert_eq!(split_lines("cat\ndog\n"), words(&["cat", "dog"]));
}

#[test]
fn blank_lines_are_words() {
    assert_eq!(split_lines("cat\n\ndog\n\n"), words(&["cat", "", "dog", ""]));
    assert_eq!(split_lines("\n"), words(&[""]));
}

#[test]
fn empty_text_has_no_line() {
    assert_eq!(split_lines(""), Vec::<String>::new());
}

#[test]
fn carriage_return_before_line_feed_is_dropped() {
    assert_eq!(split_lines("cat\r\ndog\r\n"), words(&["cat", "dog"]));
    assert_eq!(split_lines("\r\n"), words(&[""]));
}

#[test]
fn only_one_carriage_return_is_dropped() {
    assert_eq!(split_lines("cat\r\r\ndog"), words(&["cat\r", "dog"]));
}

#[test]
fn other_carriage_returns_stay() {
    assert_eq!(split_lines("c\rat\ndog\r"), words(&["c\rat", "dog\r"]));
    assert_eq!(split_lines("\r"), words(&["\r"]));
}

#[test]
fn whitespace_in_a_line_is_kept() {
    assert_eq!(split_lines("  cat \n\tdog"), words(&["  cat ", "\tdog"]));
}

#[test]
fn splitting_agrees_with_std() {
    let samples = [
        "",
        "\n",
        "\r",
        "\r\n",
        "a",
        "a\n",
        "a\r",
        "a\r\n",
        "a\n\nb",
        "a\r\n\r\nb\r",
        "\n\n\n",
        "\r\r\n\r",
        "é\nü\r\n\u{1F600}",
        "one two\n three\r\nfour \n",
    ];
    for text in samples {
        let expected: Vec<String> = text.lines().map(String::from).collect();
        assert_eq!(split_lines(text), expected);
    }
}

#[test]
fn file_gives_its_lines() {
    let loaded = make_dictionary(Some("cat\ndog\r\nact\n".as_bytes()));
    assert_eq!(loaded, Ok(words(&["cat", "dog", "act"])));
}

#[test]
fn file_keeps_order_and_duplicates() {
    let loaded = make_dictionary(Some("b\na\nb\n".as_bytes()));
    assert_eq!(loaded, Ok(words(&["b", "a", "b"])));
}

#[test]
fn file_beyond_ascii_is_decoded() {
    let loaded = make_dictionary(Some("caf\u{e9}\n\u{65e5}\u{672c}\n".as_bytes()));
    assert_eq!(loaded, Ok(words(&["caf\u{e9}", "\u{65e5}\u{672c}"])));
}

#[test]
fn empty_file_gives_empty_dictionary() {
    assert_eq!(make_dictionary(Some(&[])), Ok(Vec::new()));
}

#[test]
fn unreadable_file_gives_io_error() {
    assert_eq!(make_dictionary(None), Err(LoadError::IoError));
}

#[test]
fn malformed_file_gives_io_error() {
    let bytes: [u8; 8] = [b'c', b'a', b't', b'\n', 0xff, 0xfe, b'\n', b'a'];
    assert_eq!(make_dictionary(Some(&bytes)), Err(LoadError::IoError));
    let cut_short: [u8; 3] = [b'a', b'\n', 0xc3];
    assert_eq!(make_dictionary(Some(&cut_short)), Err(LoadError::IoError));
}

#[test]
fn body_gives_its_lines() {
    let loaded = make_dictionary_url(Some("cat\ndog\n\nact"));
    assert_eq!(loaded, Ok(words(&["cat", "dog", "", "act"])));
}

#[test]
fn failed_request_gives_fetch_error() {
    assert_eq!(make_dictionary_url(None), Err(LoadError::FetchError));
}

#[test]
fn loaded_words_hold_no_line_feed() {
    let dict = make_dictionary(Some("a\nb\r\n\nc".as_bytes())).unwrap();
    assert_eq!(dict.len(), 4);
    assert!(dict.iter().all(|word| !word.contains('\n')));
}

#[test]
fn loaded_dictionary_is_filtered() {
    let dict = make_dictionary(Some("cat\ndog\nact\ntad\n".as_bytes())).unwrap();
    assert_eq!(get_matches(&dict, &make_filter("cat")), words(&["cat", "act"]));
}
