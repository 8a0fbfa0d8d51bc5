use kielip::config::Action;
use kielip::rules::{Effect, RuleSet};
use kielip::watch::{clean_read, WatchState};

#[test]
fn unchanged_value_not_processed_twice() {
    let rs = RuleSet::compile(vec![]).unwrap();
    let mut w = WatchState::new();
    let first = w.process(&rs, "hello".to_string());
    assert_eq!(first.unwrap().value, "hello");
    assert!(w.process(&rs, "hello".to_string()).is_none());
    assert_eq!(w.last_value(), "hello");
}

#[test]
fn empty_read_ignored() {
    let rs = RuleSet::compile(vec![]).unwrap();
    let mut w = WatchState::new();
    assert!(w.process(&rs, String::new()).is_none());
    assert_eq!(w.last_value(), "");
}

#[test]
fn write_back_value_not_reprocessed() {
    let rs = RuleSet::compile(vec![(
        "secret".to_string(),
        (true, Action::Replace { replacement: "***".to_string() }),
    )])
    .unwrap();
    let mut w = WatchState::new();
    let t = w.process(&rs, "a secret".to_string()).unwrap();
    assert_eq!(t.value, "a ***");
    assert_eq!(t.effects, vec![Effect::WriteClipboard { text: "a ***".to_string() }]);
    assert_eq!(w.last_value(), "a ***");
    assert!(w.process(&rs, "a ***".to_string()).is_none());
    let next = w.process(&rs, "other".to_string()).unwrap();
    assert_eq!(next.value, "other");
}

#[test]
fn process_with_given_tokens() {
    let rs = RuleSet::compile(vec![("k[0-9]".to_string(), (true, Action::Scramble))]).unwrap();
    let mut w = WatchState::new();
    let t = w.process_with_tokens(&rs, "k1-k2".to_string(), &vec!["ABCDEFG".to_string()]).unwrap();
    assert_eq!(t.value, "ABCDEFG-ABCDEFG");
    assert!(w.process_with_tokens(&rs, "ABCDEFG-ABCDEFG".to_string(), &vec!["ZZZZZZZ".to_string()]).is_none());
}

#[test]
fn clean_read_strips_nul_and_space() {
    assert_eq!(clean_read("\0\0  hello world \n\0"), "hello world");
    assert_eq!(clean_read("plain"), "plain");
    assert_eq!(clean_read("\0\0"), "");
    assert_eq!(clean_read(" \0x\0 "), "\0x\0");
}
