use grepbot::rules::{holds, Outcome, Removal, RuleStore};

#[test]
fn new_store_is_empty() {
    let store = RuleStore::new();
    assert_eq!(store.len(), 0);
    assert!(store.list(1).is_empty());
    assert!(!store.contains(1, "foo"));
}

#[test]
fn add_registers_a_rule() {
    let mut store = RuleStore::new();
    assert_eq!(store.add(7, "foo").unwrap(), Outcome::Added);
    assert_eq!(store.len(), 1);
    assert!(store.contains(7, "foo"));
    assert!(!store.contains(8, "foo"));
    assert!(!store.contains(7, "fo"));
    assert_eq!(store.list(7), vec!["foo".to_string()]);
}

#[test]
fn add_twice_leaves_one_rule() {
    let mut store = RuleStore::new();
    assert_eq!(store.add(7, "foo").unwrap(), Outcome::Added);
    assert_eq!(store.add(7, "foo").unwrap(), Outcome::AlreadyExists);
    assert_eq!(store.len(), 1);
    assert_eq!(store.list(7), vec!["foo".to_string()]);
}

#[test]
fn same_pattern_for_two_owners_is_two_rules() {
    let mut store = RuleStore::new();
    assert_eq!(store.add(7, "foo").unwrap(), Outcome::Added);
    assert_eq!(store.add(8, "foo").unwrap(), Outcome::Added);
    assert_eq!(store.len(), 2);
    assert_eq!(store.list(7), vec!["foo".to_string()]);
    assert_eq!(store.list(8), vec!["foo".to_string()]);
}

#[test]
fn add_then_remove_leaves_no_rule() {
    let mut store = RuleStore::new();
    assert_eq!(store.add(7, "foo").unwrap(), Outcome::Added);
    assert_eq!(store.remove(7, "foo"), Removal::Removed);
    assert_eq!(store.len(), 0);
    assert!(store.list(7).is_empty());
    assert!(!store.contains(7, "foo"));
}

#[test]
fn add_then_remove_keeps_the_other_rules() {
    let mut store = RuleStore::new();
    store.add(7, "a").unwrap();
    store.add(8, "b").unwrap();
    store.add(7, "c").unwrap();
    assert_eq!(store.add(7, "foo").unwrap(), Outcome::Added);
    assert_eq!(store.remove(7, "foo"), Removal::Removed);
    assert_eq!(store.len(), 3);
    assert_eq!(store.list(7), vec!["a".to_string(), "c".to_string()]);
    assert_eq!(store.list(8), vec!["b".to_string()]);
}

#[test]
fn remove_of_an_absent_rule_reports_not_found() {
    let mut store = RuleStore::new();
    assert_eq!(store.remove(7, "foo"), Removal::NotFound);
    store.add(7, "foo").unwrap();
    assert_eq!(store.remove(8, "foo"), Removal::NotFound);
    assert_eq!(store.remove(7, "fo"), Removal::NotFound);
    assert_eq!(store.len(), 1);
    assert_eq!(store.remove(7, "foo"), Removal::Removed);
    assert_eq!(store.remove(7, "foo"), Removal::NotFound);
}

#[test]
fn remove_takes_the_rule_out_of_the_middle() {
    let mut store = RuleStore::new();
    store.add(1, "a").unwrap();
    store.add(1, "b").unwrap();
    store.add(1, "c").unwrap();
    assert_eq!(store.remove(1, "b"), Removal::Removed);
    assert_eq!(store.list(1), vec!["a".to_string(), "c".to_string()]);
}

#[test]
fn invalid_pattern_is_turned_down_with_the_engines_words() {
    let mut store = RuleStore::new();
    let error = store.add(7, "[invalid(").unwrap_err();
    let expected = regex::Regex::new("[invalid(").unwrap_err().to_string();
    assert_eq!(error.message, expected);
    assert!(!error.message.is_empty());
    assert_ne!(error.message, "[invalid(");
    assert_eq!(store.len(), 0);
    assert!(!store.contains(7, "[invalid("));
}

#[test]
fn invalid_pattern_twice_is_turned_down_twice() {
    let mut store = RuleStore::new();
    assert!(store.add(7, "(").is_err());
    assert!(store.add(7, "(").is_err());
    assert_eq!(store.len(), 0);
}

#[test]
fn empty_pattern_is_a_valid_rule() {
    let mut store = RuleStore::new();
    assert_eq!(store.add(7, "").unwrap(), Outcome::Added);
    assert_eq!(store.match_against("anything", 1), vec![7]);
}

#[test]
fn list_is_in_the_order_of_adding() {
    let mut store = RuleStore::new();
    store.add(1, "zeta").unwrap();
    store.add(2, "other").unwrap();
    store.add(1, "alpha").unwrap();
    store.add(1, "mid").unwrap();
    assert_eq!(
        store.list(1),
        vec!["zeta".to_string(), "alpha".to_string(), "mid".to_string()]
    );
    assert_eq!(store.list(2), vec!["other".to_string()]);
    assert!(store.list(3).is_empty());
}

#[test]
fn match_against_finds_the_owners_whose_rules_fire() {
    let mut store = RuleStore::new();
    store.add(1, "foo").unwrap();
    store.add(2, "bar").unwrap();
    store.add(3, "^foo").unwrap();
    assert_eq!(store.match_against("foobar", 9), vec![1, 2, 3]);
    assert_eq!(store.match_against("a foo", 9), vec![1]);
    assert_eq!(store.match_against("nothing", 9), Vec::<u64>::new());
}

#[test]
fn match_against_uses_the_pattern_language() {
    let mut store = RuleStore::new();
    store.add(1, "^h.llo$").unwrap();
    store.add(2, "[0-9]+").unwrap();
    assert_eq!(store.match_against("hello", 9), vec![1]);
    assert_eq!(store.match_against("h.llo", 9), vec![1]);
    assert_eq!(store.match_against("^h.llo$", 9), Vec::<u64>::new());
    assert_eq!(store.match_against("[0-9]+", 9), vec![2]);
    assert_eq!(store.match_against("abc 42", 9), vec![2]);
    assert_eq!(store.match_against("abc", 9), Vec::<u64>::new());
}

#[test]
fn match_against_leaves_the_excluded_owner_out() {
    let mut store = RuleStore::new();
    store.add(1, "foo").unwrap();
    store.add(2, "foo").unwrap();
    assert_eq!(store.match_against("foo", 1), vec![2]);
    assert_eq!(store.match_against("foo", 2), vec![1]);
    assert_eq!(store.match_against("foo", 3), vec![1, 2]);
}

#[test]
fn match_against_names_an_owner_once() {
    let mut store = RuleStore::new();
    store.add(5, "foo").unwrap();
    store.add(4, "o").unwrap();
    store.add(5, "f").unwrap();
    store.add(5, "x").unwrap();
    assert_eq!(store.match_against("foo", 9), vec![5, 4]);
}

#[test]
fn match_against_is_case_sensitive() {
    let mut store = RuleStore::new();
    store.add(1, "Foo").unwrap();
    assert_eq!(store.match_against("foo", 9), Vec::<u64>::new());
    assert_eq!(store.match_against("Foo", 9), vec![1]);
}

#[test]
fn rule_source_text_is_kept_as_written() {
    let mut store = RuleStore::new();
    store.add(1, " a b ").unwrap();
    store.add(1, "h\u{e9}llo").unwrap();
    assert_eq!(store.list(1), vec![" a b ".to_string(), "h\u{e9}llo".to_string()]);
    assert!(store.contains(1, " a b "));
    assert!(!store.contains(1, "a b"));
}

#[test]
fn holds_finds_a_user() {
    assert!(holds(&vec![3, 1, 2], 1));
    assert!(!holds(&vec![3, 1, 2], 4));
    assert!(!holds(&Vec::new(), 0));
}
