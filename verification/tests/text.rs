use taskprinter::text::{
    chars_of, push_left_field, push_right_field, same_text, split_lines, string_of,
};

fn left(s: &str, width: usize) -> String {
    let chars: Vec<char> = s.chars().collect();
    let mut out = String::from(">");
    push_left_field(&mut out, &chars, 0, chars.len(), width);
    out
}

fn right(s: &str, width: usize) -> String {
    let chars: Vec<char> = s.chars().collect();
    let mut out = String::from(">");
    push_right_field(&mut out, &chars, width);
    out
}

#[test]
fn chars_of_gives_the_characters_in_order() {
    assert_eq!(chars_of("a│b"), vec!['a', '│', 'b']);
    assert_eq!(chars_of(""), Vec::<char>::new());
}

#[test]
fn string_of_takes_the_range() {
    let chars = vec!['h', 'e', 'l', 'l', 'o'];
    assert_eq!(string_of(&chars, 1, 4), "ell");
    assert_eq!(string_of(&chars, 0, 5), "hello");
    assert_eq!(string_of(&chars, 2, 2), "");
}

#[test]
fn same_text_compares_characters() {
    assert!(same_text("PC850", "PC850"));
    assert!(!same_text("PC850", "PC437"));
    assert!(!same_text("PC850", "PC85"));
    assert!(!same_text("", "x"));
    assert!(same_text("", ""));
}

#[test]
fn left_field_pads_on_the_right() {
    assert_eq!(left("ab", 5), ">ab   ");
    assert_eq!(left("", 3), ">   ");
    assert_eq!(left("abc", 3), ">abc");
}

#[test]
fn left_field_cuts_what_does_not_fit() {
    assert_eq!(left("abcdef", 4), ">abcd");
    assert_eq!(left("abcdef", 0), ">");
}

#[test]
fn left_field_shows_a_range() {
    let chars: Vec<char> = "0123456789".chars().collect();
    let mut out = String::new();
    push_left_field(&mut out, &chars, 3, 6, 5);
    assert_eq!(out, "345  ");
}

#[test]
fn right_field_pads_on_the_left() {
    assert_eq!(right("1/2", 5), ">  1/2");
    assert_eq!(right("", 2), ">  ");
    assert_eq!(right("01/02", 5), ">01/02");
}

#[test]
fn right_field_shows_the_first_characters() {
    assert_eq!(right("01/02/2024", 5), ">01/02");
}

#[test]
fn fields_count_characters_not_bytes() {
    assert_eq!(left("äöü", 4), ">äöü ");
    assert_eq!(left("äöüß€", 4), ">äöüß");
    assert_eq!(right("äö", 3), "> äö");
}

#[test]
fn lines_are_split_at_line_feeds() {
    assert_eq!(split_lines("one\ntwo\nthree"), vec!["one", "two", "three"]);
    assert_eq!(split_lines("one"), vec!["one"]);
}

#[test]
fn an_empty_text_has_no_line() {
    assert_eq!(split_lines(""), Vec::<String>::new());
}

#[test]
fn a_final_line_feed_opens_no_line() {
    assert_eq!(split_lines("one\n"), vec!["one"]);
    assert_eq!(split_lines("one\n\n"), vec!["one", ""]);
    assert_eq!(split_lines("\n"), vec![""]);
}

#[test]
fn a_carriage_return_before_a_line_feed_belongs_to_the_break() {
    assert_eq!(split_lines("one\r\ntwo"), vec!["one", "two"]);
    assert_eq!(split_lines("\r\n"), vec![""]);
    assert_eq!(split_lines("one\r\r\ntwo"), vec!["one\r", "two"]);
}

#[test]
fn a_carriage_return_elsewhere_stays() {
    assert_eq!(split_lines("one\rtwo"), vec!["one\rtwo"]);
    assert_eq!(split_lines("one\ntwo\r"), vec!["one", "two\r"]);
}

#[test]
fn lines_agree_with_the_standard_library() {
    let samples = [
        "",
        "a",
        "a\n",
        "a\nb",
        "a\r\nb",
        "a\r",
        "\r",
        "\n",
        "\n\n",
        "\n\r\n",
        "a\n\nb",
        "a\rb\n",
        "foo\nbar\n\r\nbaz\r",
        "│ ä\n€\r\n",
        "\r\r\n\r",
    ];
    for sample in samples {
        let expected: Vec<String> = sample.lines().map(String::from).collect();
        assert_eq!(split_lines(sample), expected, "lines of {:?}", sample);
    }
}
