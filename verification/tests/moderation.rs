use chloe_bot::websocket::message_parser::TwitchMessage;
use chloe_bot::websocket::moderation::{is_blocked, Blacklist};

fn word_list() -> Blacklist {
    Blacklist::new(vec!["test", "test2", "trans", "gay", "queer", "lesbian", "lgbt", "lgbtq", "lgbtq+", "lgbtqia", "lgbtqia+", "lgbtq", "nigga"])
}

#[test]
fn test_blacklisted_words() {
    let blacklist = word_list();
    assert_eq!(blacklist.contains_blacklist_word("test"), true);
    assert_eq!(blacklist.contains_blacklist_word("test2"), true);
}

#[test]
fn test_blacklisted_words_with_garbage() {
    let blacklist = word_list();
    assert_eq!(blacklist.contains_blacklist_word("test!"), true);
    assert_eq!(blacklist.contains_blacklist_word("test2!"), true);
}

#[test]
fn test_blacklisted_words_with_garbage_and_capitalization() {
    let blacklist = word_list();
    assert_eq!(blacklist.contains_blacklist_word("Test!"), true);
    assert_eq!(blacklist.contains_blacklist_word("Test2!"), true);
}

#[test]
fn test_blacklisted_words_with_garbage_and_capitalization_and_whitespace() {
    let blacklist = word_list();
    assert_eq!(blacklist.contains_blacklist_word("Test! "), true);
    assert_eq!(blacklist.contains_blacklist_word("Test2! "), true);
}

#[test]
fn test_blacklisted_words_with_garbage_and_capitalization_and_whitespace_and_alphanumeric() {
    let blacklist = word_list();
    assert_eq!(blacklist.contains_blacklist_word("Test! 123"), true);
    assert_eq!(blacklist.contains_blacklist_word("Test2! 123"), true);
}

#[test]
fn test_notblacklisted_words() {
    let blacklist = word_list();
    assert_eq!(blacklist.contains_blacklist_word("chloe"), false);
    assert_eq!(blacklist.contains_blacklist_word("eskay"), false);
}

#[test]
fn test_notblacklisted_words_with_garbage() {
    let blacklist = word_list();
    assert_eq!(blacklist.contains_blacklist_word("chloe!"), false);
    assert_eq!(blacklist.contains_blacklist_word("eskay!"), false);
}

#[test]
fn garbage_inside_a_word_is_ignored() {
    let blacklist = Blacklist::new(vec!["kekw", "pog", "eskay"]);
    assert!(blacklist.contains_blacklist_word("p.o.g"));
    assert!(blacklist.contains_blacklist_word("KE-KW champ"));
    assert!(!blacklist.contains_blacklist_word("p o g"));
}

#[test]
fn words_are_lowercased_when_listed() {
    let blacklist = Blacklist::new(vec!["PoG"]);
    assert!(blacklist.contains_blacklist_word("pog"));
    assert!(blacklist.contains_blacklist_word("POG"));
}

#[test]
fn empty_blacklist_blocks_nothing() {
    let blacklist = Blacklist::new(vec![]);
    assert!(!blacklist.contains_blacklist_word("anything at all"));
    assert!(!blacklist.contains_blacklist_word(""));
}

#[test]
fn contains_with_garbage_is_substring_search() {
    let blacklist = Blacklist::new(vec![]);
    assert!(blacklist.contains_with_garbage("abcdef", "cde"));
    assert!(blacklist.contains_with_garbage("abc", "abc"));
    assert!(blacklist.contains_with_garbage("abc", ""));
    assert!(!blacklist.contains_with_garbage("ab", "abc"));
    assert!(!blacklist.contains_with_garbage("abcdef", "ce"));
}

#[test]
fn only_chat_messages_are_blocked() {
    let blacklist = Blacklist::new(vec!["pog"]);
    let chat = TwitchMessage::parse_message(":a!b PRIVMSG #c :POG!".to_string());
    assert!(is_blocked(&blacklist, &chat));
    let clean = TwitchMessage::parse_message(":a!b PRIVMSG #c :hello".to_string());
    assert!(!is_blocked(&blacklist, &clean));
    let notice = TwitchMessage::parse_message(":a!b USERNOTICE #c :pog".to_string());
    assert!(!is_blocked(&blacklist, &notice));
}

#[test]
fn case_and_garbage_do_not_matter() {
    let blacklist = Blacklist::new(vec!["test"]);
    assert!(blacklist.contains_blacklist_word("t.e-s!T"));
    assert!(blacklist.contains_blacklist_word("TEST"));
    assert!(!blacklist.contains_blacklist_word("t e s t"));
}

#[test]
fn inserted_word_is_kept_as_given() {
    let mut blacklist = Blacklist::new(vec!["pog"]);
    assert!(blacklist.insert_word("kekw".to_string()));
    assert!(!blacklist.insert_word("pog".to_string()));
    assert!(blacklist.contains_blacklist_word("KEKW"));
    // A word inserted with capitals never matches the lower-cased message.
    assert!(blacklist.insert_word("LUL".to_string()));
    assert!(!blacklist.contains_blacklist_word("LUL"));
}

#[test]
fn ascii_case_is_ignored_in_non_ascii_messages() {
    let blacklist = word_list();
    assert_eq!(blacklist.contains_blacklist_word("Ärger: T.e-S!t"), true);
    assert_eq!(blacklist.contains_blacklist_word("Ärger: t.e-s!t"), true);
    assert_eq!(blacklist.contains_blacklist_word("Ärger: T.e-S!x"), false);
}
