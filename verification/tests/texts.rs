use grepbot::command::Command;
use grepbot::reply::{invalid_reply, notify_text, push_mention, removal_reply};
use grepbot::text::{join_lines, push_decimal, same_text, strip_prefix};

fn decimal_of(n: u64) -> String {
    let mut out = String::new();
    push_decimal(&mut out, n);
    out
}

#[test]
fn same_text_compares_characters() {
    assert!(same_text("", ""));
    assert!(same_text("abc", "abc"));
    assert!(!same_text("abc", "abd"));
    assert!(!same_text("abc", "ab"));
    assert!(!same_text("", "a"));
}

#[test]
fn strip_prefix_hands_back_the_rest() {
    assert_eq!(strip_prefix("!grep foo", "!grep "), Some("foo"));
    assert_eq!(strip_prefix("!grep ", "!grep "), Some(""));
    assert_eq!(strip_prefix("!grep", "!grep "), None);
    assert_eq!(strip_prefix("", "!grep "), None);
    assert_eq!(strip_prefix("x!grep foo", "!grep "), None);
    assert_eq!(strip_prefix("abc", ""), Some("abc"));
}

#[test]
fn strip_prefix_counts_characters_not_bytes() {
    assert_eq!(strip_prefix("\u{e9}\u{e9}x\u{4e16}", "\u{e9}\u{e9}"), Some("x\u{4e16}"));
    assert_eq!(strip_prefix("!grep h\u{e9}llo", "!grep "), Some("h\u{e9}llo"));
    assert_eq!(strip_prefix("\u{e9}", "\u{e9}\u{e9}"), None);
}

#[test]
fn decimal_writes_base_ten() {
    assert_eq!(decimal_of(0), "0");
    assert_eq!(decimal_of(7), "7");
    assert_eq!(decimal_of(10), "10");
    assert_eq!(decimal_of(1234), "1234");
    assert_eq!(decimal_of(9_876_543_210), "9876543210");
    assert_eq!(decimal_of(1_000_000), "1000000");
    assert_eq!(decimal_of(u64::MAX), "18446744073709551615");
}

#[test]
fn decimal_is_written_at_the_end() {
    let mut out = String::from("n=");
    push_decimal(&mut out, 42);
    assert_eq!(out, "n=42");
}

#[test]
fn mention_is_the_platforms_form() {
    let mut out = String::new();
    push_mention(&mut out, 1234);
    assert_eq!(out, "<@1234>");
    push_mention(&mut out, 0);
    assert_eq!(out, "<@1234><@0>");
}

#[test]
fn notification_mentions_each_user_in_order() {
    assert_eq!(notify_text(&vec![5]), "Hey! <@5>");
    assert_eq!(notify_text(&vec![5, 12, 3]), "Hey! <@5> <@12> <@3>");
    assert_eq!(notify_text(&Vec::new()), "Hey!");
}

#[test]
fn join_lines_puts_line_feeds_between() {
    assert_eq!(join_lines(&Vec::new()), "");
    assert_eq!(join_lines(&vec!["a".to_string()]), "a");
    assert_eq!(join_lines(&vec!["a".to_string(), "b".to_string()]), "a\nb");
    assert_eq!(
        join_lines(&vec!["a".to_string(), "".to_string(), "c".to_string()]),
        "a\n\nc"
    );
    assert_eq!(join_lines(&vec!["".to_string(), "b".to_string()]), "\nb");
}

#[test]
fn fixed_replies() {
    assert_eq!(invalid_reply("no good"), "Invalid regex. no good");
    assert_eq!(removal_reply("foo", true), "Regex foo removed");
    assert_eq!(removal_reply("foo", false), "Regex foo was not found");
    assert_eq!(removal_reply("", false), "Regex  was not found");
}

#[test]
fn parse_knows_the_fixed_commands() {
    assert!(matches!(Command::parse("!grephelp"), Command::Help));
    assert!(matches!(Command::parse("!mygreps"), Command::ListMine));
}

#[test]
fn parse_takes_the_pattern_behind_the_prefix() {
    match Command::parse("!grep foo") {
        Command::Add(pattern) => assert_eq!(pattern, "foo"),
        _ => panic!("not an add request"),
    }
    match Command::parse("!grep  a b ") {
        Command::Add(pattern) => assert_eq!(pattern, " a b "),
        _ => panic!("not an add request"),
    }
    match Command::parse("!grep ") {
        Command::Add(pattern) => assert_eq!(pattern, ""),
        _ => panic!("not an add request"),
    }
    match Command::parse("!ungrep foo") {
        Command::Remove(pattern) => assert_eq!(pattern, "foo"),
        _ => panic!("not a remove request"),
    }
    match Command::parse("!ungrep ") {
        Command::Remove(pattern) => assert_eq!(pattern, ""),
        _ => panic!("not a remove request"),
    }
    match Command::parse("!grep !grephelp") {
        Command::Add(pattern) => assert_eq!(pattern, "!grephelp"),
        _ => panic!("not an add request"),
    }
}

#[test]
fn parse_takes_everything_else_as_plain() {
    assert!(matches!(Command::parse(""), Command::Plain));
    assert!(matches!(Command::parse("hello"), Command::Plain));
    assert!(matches!(Command::parse("!grep"), Command::Plain));
    assert!(matches!(Command::parse("!ungrep"), Command::Plain));
    assert!(matches!(Command::parse("!grepfoo"), Command::Plain));
    assert!(matches!(Command::parse("!GREP foo"), Command::Plain));
    assert!(matches!(Command::parse(" !grep foo"), Command::Plain));
    assert!(matches!(Command::parse("!grephelp "), Command::Plain));
    assert!(matches!(Command::parse("!mygreps now"), Command::Plain));
    assert!(matches!(Command::parse("!Grephelp"), Command::Plain));
}
