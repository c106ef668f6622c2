use todo_list::lines::split_lines;
use todo_list::text::{join_from, same_text};

fn strings(items: &[&str]) -> Vec<String> {
    items.iter().map(|s| s.to_string()).collect()
}

fn std_lines(text: &str) -> Vec<String> {
    text.lines().map(|s| s.to_string()).collect()
}

#[test]
fn split_lines_of_empty_text_is_empty() {
    assert_eq!(split_lines(""), Vec::<String>::new());
}

#[test]
fn split_lines_takes_the_last_line_with_or_without_line_feed() {
    assert_eq!(split_lines("a"), strings(&["a"]));
    assert_eq!(split_lines("a\n"), strings(&["a"]));
    assert_eq!(split_lines("a\nb"), strings(&["a", "b"]));
    assert_eq!(split_lines("a\nb\n"), strings(&["a", "b"]));
}

#[test]
fn split_lines_keeps_empty_lines() {
    assert_eq!(split_lines("\n"), strings(&[""]));
    assert_eq!(split_lines("\n\n"), strings(&["", ""]));
    assert_eq!(split_lines("a\n\nb"), strings(&["a", "", "b"]));
    assert_eq!(split_lines("\na"), strings(&["", "a"]));
}

#[test]
fn split_lines_drops_a_carriage_return_only_before_a_line_feed() {
    assert_eq!(split_lines("a\r\nb"), strings(&["a", "b"]));
    assert_eq!(split_lines("a\r\n"), strings(&["a"]));
    assert_eq!(split_lines("\r\n"), strings(&[""]));
    assert_eq!(split_lines("a\r"), strings(&["a\r"]));
    assert_eq!(split_lines("\r"), strings(&["\r"]));
    assert_eq!(split_lines("a\rb\nc"), strings(&["a\rb", "c"]));
    assert_eq!(split_lines("a\r\r\nb"), strings(&["a\r", "b"]));
    assert_eq!(split_lines("\r\r"), strings(&["\r\r"]));
    assert_eq!(split_lines("a\n\rb"), strings(&["a", "\rb"]));
}

#[test]
fn split_lines_agrees_with_the_standard_library() {
    let samples = [
        "",
        "a",
        "\n",
        "\r",
        "\r\n",
        "\n\r",
        "\r\r\n",
        "\r\n\r\n",
        "a\nb\nc",
        "a\r\nb\r\nc\r\n",
        "a\r\nb\rc\n\rd\r",
        "foo\r\nbar\n\nbaz\r",
        "foo\nbar\n\r\nbaz\n",
        "one\n\n\n",
        "\n\n\none",
        "caf\u{e9}\r\n\u{65e5}\u{672c}\n\u{1f600}",
        "trailing space \n leading space",
        "\r\r\r",
        "x\r\r",
        "\rx\n",
    ];
    for text in samples {
        assert_eq!(split_lines(text), std_lines(text), "for {:?}", text);
    }
}

#[test]
fn join_from_puts_the_separator_between_neighbours() {
    let parts = strings(&["a", "b", "c"]);
    assert_eq!(join_from(&parts, 0, ", "), "a, b, c");
    assert_eq!(join_from(&parts, 1, ", "), "b, c");
    assert_eq!(join_from(&parts, 2, ", "), "c");
    assert_eq!(join_from(&parts, 3, ", "), "");
    assert_eq!(join_from(&parts, 0, ""), "abc");
    assert_eq!(join_from(&Vec::new(), 0, "\n"), "");
}

#[test]
fn join_from_keeps_empty_parts() {
    let parts = strings(&["", "a", "", ""]);
    assert_eq!(join_from(&parts, 0, "-"), "-a--");
    assert_eq!(join_from(&parts, 0, "-"), parts.join("-"));
    assert_eq!(join_from(&parts, 2, "-"), "-");
}

#[test]
fn same_text_compares_every_character() {
    assert!(same_text("", ""));
    assert!(same_text("add", "add"));
    assert!(!same_text("add", "Add"));
    assert!(!same_text("add", "add "));
    assert!(!same_text("add", "ad"));
    assert!(!same_text("", "a"));
    assert!(same_text("caf\u{e9}", "caf\u{e9}"));
    assert!(!same_text("caf\u{e9}", "cafe\u{301}"));
}
