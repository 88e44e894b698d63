//! Tests of the small building blocks: trimming, line splitting, the
//! separator bar, the pause primitive and the level order.

use navigator::context::NavError;
use navigator::context::PromptLevel;
use navigator::context::pause;
use navigator::context::print_bar;
use navigator::text::split_lines_str;
use navigator::text::str_eq_fold;
use navigator::text::trim_str;

fn strings(items: &[&str]) -> Vec<String> {
    items.iter().map(|s| s.to_string()).collect()
}

#[test]
fn trim_removes_whitespace_at_both_ends() {
    assert_eq!(trim_str("  hello \t"), "hello");
    assert_eq!(trim_str("hello"), "hello");
    assert_eq!(trim_str(" \r\n "), "");
    assert_eq!(trim_str(""), "");
    assert_eq!(trim_str("a b"), "a b");
}

#[test]
fn split_lines_matches_line_semantics() {
    assert_eq!(split_lines_str("a\nb"), strings(&["a", "b"]));
    assert_eq!(split_lines_str("a\nb\n"), strings(&["a", "b"]));
    assert_eq!(split_lines_str("a\r\nb"), strings(&["a", "b"]));
    assert_eq!(split_lines_str("a\n\n"), strings(&["a", ""]));
    assert_eq!(split_lines_str(""), Vec::<String>::new());
    assert_eq!(split_lines_str("\n"), strings(&[""]));
}

#[test]
fn case_folding_is_ascii_only() {
    assert!(str_eq_fold("YES", "yes"));
    assert!(str_eq_fold("yEs", "YeS"));
    assert!(!str_eq_fold("yes", "no"));
    assert!(!str_eq_fold("yes", "yes "));
}

#[test]
fn print_bar_writes_underscores_and_a_blank_line() {
    let mut out: Vec<String> = Vec::new();
    print_bar(4, &mut out);
    assert_eq!(out, strings(&["____", ""]));
}

#[test]
fn pause_repeats_its_message_until_a_blank_line() {
    let feed = strings(&["a", "b", ""]);
    let mut out: Vec<String> = Vec::new();
    let p = pause("ack?", &feed, 0, &mut out).unwrap();
    assert_eq!(p, 3);
    assert_eq!(
        out,
        strings(&["ack?", "ack?", "ack?", "________________________________", ""])
    );
}

#[test]
fn pause_with_no_blank_line_needs_input() {
    let feed = strings(&["a"]);
    let mut out: Vec<String> = Vec::new();
    let r = pause("ack?", &feed, 0, &mut out);
    assert!(matches!(r, Err(NavError::NeedInput)));
    assert_eq!(out, strings(&["ack?", "ack?"]));
}

#[test]
fn prompt_levels_are_totally_ordered() {
    assert!(PromptLevel::Pause.at_least(PromptLevel::Show));
    assert!(PromptLevel::Show.at_least(PromptLevel::Hide));
    assert!(PromptLevel::Pause.at_least(PromptLevel::Pause));
    assert!(!PromptLevel::Hide.at_least(PromptLevel::Show));
    assert!(!PromptLevel::Show.at_least(PromptLevel::Pause));
}
