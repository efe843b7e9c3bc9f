use text_editor::text::{chars_of, join_lines, split_lines, string_of};

fn chars(text: &str) -> Vec<char> {
    text.chars().collect()
}

fn split(text: &str) -> Vec<String> {
    split_lines(&chars(text)).iter().map(|line| line.iter().collect()).collect()
}

#[test]
fn chars_of_gives_the_scalar_values() {
    assert_eq!(chars_of("aé€"), vec!['a', 'é', '€']);
    assert!(chars_of("").is_empty());
}

#[test]
fn string_of_undoes_chars_of() {
    assert_eq!(string_of(&['a', 'é', '€']), "aé€");
    assert_eq!(string_of(&chars_of("round trip\n")), "round trip\n");
    assert_eq!(string_of(&[]), "");
}

#[test]
fn split_lines_agrees_with_the_standard_library() {
    for text in [
        "",
        "\n",
        "\r\n",
        "a",
        "a\n",
        "a\nb",
        "a\r\nb\r\n",
        "a\n\nb",
        "\n\n",
        "a\r",
        "a\r\r\n",
        "\ra\n",
        "x\ny\rz\n\r",
        "last line\r\n\r\n",
    ] {
        let expected: Vec<String> = text.lines().map(String::from).collect();
        assert_eq!(split(text), expected, "for {:?}", text);
    }
}

#[test]
fn split_lines_of_an_empty_text_is_empty() {
    assert!(split("").is_empty());
}

#[test]
fn join_lines_puts_one_line_feed_between_lines() {
    let lines = vec![chars("a"), chars(""), chars("bc")];
    assert_eq!(join_lines(&lines), "a\n\nbc");
    assert_eq!(join_lines(&vec![chars("only")]), "only");
    assert_eq!(join_lines(&Vec::new()), "");
    assert_eq!(join_lines(&vec![chars(""), chars("")]), "\n");
}

#[test]
fn join_then_split_keeps_plain_lines() {
    let lines = vec![chars("one"), chars(""), chars("three")];
    let text = join_lines(&lines);
    assert_eq!(split_lines(&chars(&text)), lines);
}
