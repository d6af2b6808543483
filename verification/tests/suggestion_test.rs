use cleopatra::models::{Execution, SuggestedItem};
use cleopatra::suggestion::{suggest, suggested_item, PrefixTrie};

fn execution(id: Option<i64>, name: &str) -> Execution {
    Execution { id, name: name.to_string(), tag: None, created_by: None, time_created: 1 }
}

fn item(id: &str, name: &str) -> SuggestedItem {
    SuggestedItem { id: id.to_string(), name: name.to_string() }
}

fn names(found: &Vec<SuggestedItem>) -> Vec<String> {
    found.iter().map(|i| i.name.clone()).collect()
}

#[test]
fn search_finds_every_name_with_the_prefix() {
    let mut trie = PrefixTrie::new(2, 10, 10);
    trie.insert("login_test", item("1", "login_test"));
    trie.insert("login_validation", item("2", "login_validation"));
    trie.insert("logout_test", item("3", "logout_test"));
    trie.insert("other", item("4", "other"));
    let found = names(&trie.search("log"));
    assert_eq!(found, vec!["login_test", "login_validation", "logout_test"]);
    assert_eq!(names(&trie.search("logi")), vec!["login_test", "login_validation"]);
    assert_eq!(names(&trie.search("ot")), vec!["other"]);
}

#[test]
fn search_below_the_lower_limit_is_empty() {
    let mut trie = PrefixTrie::new(2, 10, 10);
    trie.insert("login_test", item("1", "login_test"));
    assert!(trie.search("").is_empty());
    assert!(trie.search("l").is_empty());
}

#[test]
fn search_folds_case_on_both_sides() {
    let mut trie = PrefixTrie::new(2, 10, 10);
    trie.insert("Login_Test", item("1", "Login_Test"));
    assert_eq!(names(&trie.search("LOG")), vec!["Login_Test"]);
    assert_eq!(names(&trie.search("log")), vec!["Login_Test"]);
    assert!(trie.search_folded("LOG").is_empty());
}

#[test]
fn prefixes_beyond_the_upper_limit_are_not_indexed() {
    let mut trie = PrefixTrie::new(2, 4, 10);
    trie.insert("login_test", item("1", "login_test"));
    assert_eq!(trie.search("logi").len(), 1);
    assert!(trie.search("login").is_empty());
}

#[test]
fn a_name_shorter_than_the_lower_limit_is_ignored() {
    let mut trie = PrefixTrie::new(3, 10, 10);
    trie.insert("ab", item("1", "ab"));
    assert!(trie.search("ab").is_empty());
    assert!(trie.search("a").is_empty());
}

#[test]
fn a_full_list_keeps_its_oldest_items() {
    let mut trie = PrefixTrie::new(1, 10, 2);
    trie.insert("aa", item("1", "aa"));
    trie.insert("ab", item("2", "ab"));
    trie.insert("ac", item("3", "ac"));
    assert_eq!(names(&trie.search("a")), vec!["aa", "ab"]);
    assert_eq!(names(&trie.search("ac")), vec!["ac"]);
}

#[test]
fn the_same_item_is_kept_once() {
    let mut trie = PrefixTrie::new(1, 10, 5);
    trie.insert("aa", item("1", "aa"));
    trie.insert("aa", item("1", "aa"));
    assert_eq!(trie.search("a").len(), 1);
    trie.insert("aa", item("2", "aa"));
    assert_eq!(trie.search("a").len(), 2);
}

#[test]
fn insert_prefix_touches_one_node_only() {
    let mut trie = PrefixTrie::new(2, 10, 5);
    trie.insert_prefix("abc", item("1", "abcdef"));
    assert_eq!(trie.search("abc").len(), 1);
    assert!(trie.search("ab").is_empty());
    assert!(trie.search("abcd").is_empty());
}

#[test]
fn a_lower_limit_above_the_upper_limit_indexes_nothing() {
    let mut trie = PrefixTrie::new(5, 3, 5);
    trie.insert("abcdefgh", item("1", "abcdefgh"));
    assert!(trie.search("abc").is_empty());
    assert!(trie.search("abcde").is_empty());
}

#[test]
fn non_ascii_names_are_indexed_by_code_point() {
    let mut trie = PrefixTrie::new(2, 10, 5);
    trie.insert("ÉTÉ_2024", item("7", "ÉTÉ_2024"));
    assert_eq!(names(&trie.search("ét")), vec!["ÉTÉ_2024"]);
    assert_eq!(names(&trie.search("été")), vec!["ÉTÉ_2024"]);
}

#[test]
fn a_name_is_measured_as_it_is_written() {
    let mut trie = PrefixTrie::new(2, 10, 5);
    trie.insert("\u{e9}", item("1", "\u{e9}"));
    assert!(trie.search("\u{e9}").is_empty());
    trie.insert("\u{130}", item("2", "\u{130}"));
    assert_eq!("\u{130}".to_lowercase().chars().count(), 2);
    assert!(trie.search("\u{130}").is_empty());
    assert!(trie.search_folded("i\u{307}").is_empty());
}

#[test]
fn no_prefix_is_longer_than_the_name() {
    let mut trie = PrefixTrie::new(1, 10, 5);
    trie.insert("\u{130}x", item("1", "\u{130}x"));
    assert_eq!(trie.search_folded("i").len(), 1);
    assert_eq!(trie.search_folded("i\u{307}").len(), 1);
    assert!(trie.search_folded("i\u{307}x").is_empty());
}

#[test]
fn a_folded_key_is_filed_up_to_the_given_length() {
    let mut trie = PrefixTrie::new(2, 10, 5);
    trie.insert_folded("abcdef", 3, item("1", "abc"));
    assert_eq!(trie.search_folded("ab").len(), 1);
    assert_eq!(trie.search_folded("abc").len(), 1);
    assert!(trie.search_folded("abcd").is_empty());
    trie.insert_folded("xyz", 1, item("2", "x"));
    assert!(trie.search_folded("xy").is_empty());
}

#[test]
fn an_execution_is_suggested_by_its_id_in_decimal() {
    let item = suggested_item(&execution(Some(1234567890), "Nightly"));
    assert_eq!(item.id, "1234567890");
    assert_eq!(item.name, "Nightly");
    assert_eq!(suggested_item(&execution(None, "x")).id, "0");
    assert_eq!(suggested_item(&execution(Some(-7), "x")).id, "-7");
    assert_eq!(suggested_item(&execution(Some(10), "x")).id, "10");
    assert_eq!(suggested_item(&execution(Some(i64::MAX), "x")).id, "9223372036854775807");
}

#[test]
fn a_created_execution_is_found_at_once() {
    let mut trie = PrefixTrie::new(2, 10, 10);
    trie.index_execution(&execution(Some(5), "Smoke_Run"));
    let found = trie.search("smo");
    assert_eq!(found.len(), 1);
    assert_eq!(found[0], SuggestedItem { id: "5".to_string(), name: "Smoke_Run".to_string() });
}

#[test]
fn an_index_built_from_the_store_keeps_the_first_comers() {
    let stored = vec![
        execution(Some(3), "login_c"),
        execution(Some(2), "login_b"),
        execution(Some(1), "login_a"),
        execution(Some(4), "other"),
    ];
    let trie = PrefixTrie::build_from_executions(&stored, 2, 5, 2);
    assert_eq!(names(&trie.search("lo")), vec!["login_c", "login_b"]);
    assert_eq!(names(&trie.search("login")), vec!["login_c", "login_b"]);
    assert!(trie.search("login_").is_empty());
    assert_eq!(names(&trie.search("oth")), vec!["other"]);
    let empty = PrefixTrie::build_from_executions(&Vec::new(), 2, 5, 2);
    assert!(empty.search("lo").is_empty());
}

#[test]
fn suggestions_answer_the_query_that_was_asked() {
    let mut trie = PrefixTrie::new(2, 10, 10);
    for (id, name) in [(1, "login_test"), (2, "login_validation"), (3, "logout_test"), (4, "other")] {
        trie.index_execution(&execution(Some(id), name));
    }
    let answer = suggest(Some(&trie), Some("log".to_string()), 2, 10);
    assert_eq!(answer.query, "log");
    assert_eq!(answer.limit, 10);
    assert_eq!(names(&answer.suggestions), vec!["login_test", "login_validation", "logout_test"]);
    assert!(answer.suggestions.iter().all(|s| s.name != "other"));
}

#[test]
fn an_empty_or_short_query_has_no_suggestions() {
    let mut trie = PrefixTrie::new(2, 10, 10);
    trie.index_execution(&execution(Some(1), "login_test"));
    let answer = suggest(Some(&trie), Some("".to_string()), 2, 10);
    assert_eq!(answer.query, "");
    assert!(answer.suggestions.is_empty());
    let answer = suggest(Some(&trie), Some("l".to_string()), 2, 10);
    assert_eq!(answer.query, "l");
    assert!(answer.suggestions.is_empty());
    let answer = suggest(Some(&trie), None, 2, 10);
    assert_eq!(answer.query, "");
    assert!(answer.suggestions.is_empty());
    assert_eq!(answer.limit, 10);
}

#[test]
fn suggestions_stop_at_the_limit() {
    let mut trie = PrefixTrie::new(1, 10, 10);
    for (id, name) in [(1, "aa"), (2, "ab"), (3, "ac")] {
        trie.index_execution(&execution(Some(id), name));
    }
    let answer = suggest(Some(&trie), Some("a".to_string()), 1, 2);
    assert_eq!(names(&answer.suggestions), vec!["aa", "ab"]);
    assert_eq!(answer.limit, 2);
    assert!(suggest(Some(&trie), Some("a".to_string()), 1, 0).suggestions.is_empty());
}

#[test]
fn without_an_index_there_are_no_suggestions() {
    let answer = suggest(None, Some("log".to_string()), 2, 10);
    assert_eq!(answer.query, "log");
    assert!(answer.suggestions.is_empty());
}
