use git_issue::lines::{first_line, lines};
use git_issue::order::{contains, sorted_unique, str_precedes, without};
use git_issue::text::{join, starts_with, trim, trim_end, trim_start};

fn strings(items: &[&str]) -> Vec<String> {
    items.iter().map(|s| (*s).to_owned()).collect()
}

#[test]
fn trim_end_takes_all_trailing_whitespace() {
    assert_eq!(trim_end("Foo Bar\n"), "Foo Bar");
    assert_eq!(trim_end("Foo Bar \t\r\n\n"), "Foo Bar");
    assert_eq!(trim_end("  Foo"), "  Foo");
    assert_eq!(trim_end(""), "");
    assert_eq!(trim_end(" \n "), "");
    assert_eq!(trim_end("x\u{a0}\u{2003}\u{3000}"), "x");
    assert_eq!(trim_end("x\u{200b}"), "x\u{200b}");
}

#[test]
fn trim_agrees_with_std() {
    for text in ["", " a ", "\n\nfoo\nbar\n", "\u{85}x\u{1680}", "öl \u{2028}", "\u{feff}x"] {
        assert_eq!(trim(text), text.trim());
        assert_eq!(trim_start(text), text.trim_start());
        assert_eq!(trim_end(text), text.trim_end());
    }
}

#[test]
fn lines_end_at_line_feeds() {
    assert_eq!(lines("foo\nopen\n"), strings(&["foo", "open"]));
    assert_eq!(lines("foo\nopen"), strings(&["foo", "open"]));
    assert_eq!(lines(""), Vec::<String>::new());
    assert_eq!(lines("\n"), strings(&[""]));
    assert_eq!(lines("\n\nfoo"), strings(&["", "", "foo"]));
}

#[test]
fn lines_drop_a_carriage_return_before_a_line_feed_only() {
    assert_eq!(lines("foo\r\nbar\r"), strings(&["foo", "bar\r"]));
    assert_eq!(lines("a\r\r\nb"), strings(&["a\r", "b"]));
    assert_eq!(lines("\r\n"), strings(&[""]));
}

#[test]
fn lines_agree_with_std() {
    for text in ["", "a", "a\n", "a\n\nb", "a\r\nb\r\n", "\r", "x\ny\rz\n\r", "ä\nö"] {
        let expected: Vec<String> = text.lines().map(|l| l.to_owned()).collect();
        assert_eq!(lines(text), expected, "{:?}", text);
    }
}

#[test]
fn first_line_is_before_the_first_line_break() {
    assert_eq!(first_line("Foo Bar\n\nMore"), "Foo Bar");
    assert_eq!(first_line("Foo Bar\r\nMore"), "Foo Bar");
    assert_eq!(first_line("Foo Bar"), "Foo Bar");
    assert_eq!(first_line(""), "");
    assert_eq!(first_line("\nFoo"), "");
}

#[test]
fn join_puts_the_separator_between() {
    assert_eq!(join(&strings(&["a", "b", "c"]), ", "), "a, b, c");
    assert_eq!(join(&strings(&["a"]), ", "), "a");
    assert_eq!(join(&strings(&[]), ", "), "");
    assert_eq!(join(&strings(&["", ""]), "\n"), "\n");
}

#[test]
fn starts_with_is_prefix() {
    assert!(starts_with("2d9deaf1", "2d9"));
    assert!(starts_with("2d9deaf1", ""));
    assert!(starts_with("abc", "abc"));
    assert!(!starts_with("abc", "abcd"));
    assert!(!starts_with("abc", "b"));
}

#[test]
fn order_is_lexicographic_by_code_point() {
    assert!(str_precedes("bar", "foo"));
    assert!(str_precedes("foo", "open"));
    assert!(str_precedes("", "a"));
    assert!(str_precedes("a", "ab"));
    assert!(str_precedes("Z", "a"));
    assert!(str_precedes("z", "ä"));
    assert!(!str_precedes("foo", "foo"));
    assert!(!str_precedes("b", "a"));
    assert!(!str_precedes("a", ""));
    for (a, b) in [("a", "b"), ("ab", "a"), ("é", "z"), ("\u{10ffff}", "\u{ffff}"), ("", "")] {
        assert_eq!(str_precedes(a, b), a < b, "{:?} {:?}", a, b);
    }
}

#[test]
fn sorted_unique_sorts_and_drops_repeats() {
    assert_eq!(sorted_unique(&strings(&["open", "foo", "open", "bar"])), strings(&["bar", "foo", "open"]));
    assert_eq!(sorted_unique(&strings(&[])), strings(&[]));
    assert_eq!(sorted_unique(&strings(&["b", "a", "", "a"])), strings(&["", "a", "b"]));
    let mut expected = strings(&["x", "ä", "Z", "x", "aa", "a"]);
    let actual = sorted_unique(&expected);
    expected.sort_unstable();
    expected.dedup();
    assert_eq!(actual, expected);
}

#[test]
fn without_keeps_the_others_in_order() {
    assert_eq!(without(&strings(&["b", "a", "b", "c"]), "b"), strings(&["a", "c"]));
    assert_eq!(without(&strings(&["a"]), "b"), strings(&["a"]));
    assert!(contains(&strings(&["a", "b"]), "b"));
    assert!(!contains(&strings(&["a", "b"]), "c"));
}
