//! Scenario tests for command resolution: silent replay, the display
//! markers, the confirmation override, queue ordering and the prompt gate.

use navigator::context::NavContext;
use navigator::context::NavError;
use navigator::context::PromptLevel;
use navigator::context::Source;

fn strings(items: &[&str]) -> Vec<String> {
    items.iter().map(|s| s.to_string()).collect()
}

const BAR: &str = "________________________________";
const PAUSE_MSG: &str = "Press [Enter] to continue.";

#[test]
fn bare_entry_resolves_silently() {
    let mut ctx = NavContext::new();
    ctx.execute(strings(&["a"]));
    let feed: Vec<String> = Vec::new();
    let mut out: Vec<String> = Vec::new();
    let p = ctx.next_command("Q", &feed, 0, &mut out).unwrap();
    assert_eq!(p, 0);
    assert_eq!(ctx.last_command.command, "a");
    assert_eq!(ctx.last_command.source, Source::Auto);
    assert_eq!(ctx.last_command.prompt_level, PromptLevel::Hide);
    assert!(out.is_empty());
    assert!(ctx.get_stack().is_empty());
}

#[test]
fn prompt_after_bare_entry_is_silent() {
    let mut ctx = NavContext::new();
    ctx.execute(strings(&["a"]));
    let feed: Vec<String> = Vec::new();
    let mut out: Vec<String> = Vec::new();
    ctx.next_command("Q", &feed, 0, &mut out).unwrap();
    let p = ctx.prompt("hello\nworld", &feed, 0, &mut out).unwrap();
    assert_eq!(p, 0);
    assert!(out.is_empty());
}

#[test]
fn show_entry_prints_prompt_and_echo_once() {
    let mut ctx = NavContext::new();
    ctx.execute(strings(&["x\n\n"]));
    let feed: Vec<String> = Vec::new();
    let mut out: Vec<String> = Vec::new();
    let p = ctx.next_command("Q", &feed, 0, &mut out).unwrap();
    assert_eq!(p, 0, "a show-tagged entry must not block or consume input");
    assert_eq!(ctx.last_command.command, "x");
    assert_eq!(ctx.last_command.source, Source::Auto);
    assert_eq!(ctx.last_command.prompt_level, PromptLevel::Show);
    assert_eq!(out, strings(&["Q", "=[AUTO]> x", BAR, ""]));
    assert_eq!(out.iter().filter(|l| l.as_str() == "Q").count(), 1);
    assert_eq!(out.iter().filter(|l| l.as_str() == "=[AUTO]> x").count(), 1);
}

#[test]
fn pause_entry_blocks_until_blank_acknowledgement() {
    let mut ctx = NavContext::new();
    ctx.execute(strings(&["x\n."]));
    let feed = strings(&["still reading", ""]);
    let mut out: Vec<String> = Vec::new();
    let p = ctx.next_command("Q", &feed, 0, &mut out).unwrap();
    assert_eq!(p, 2, "the pause consumes lines up to the first blank one");
    assert_eq!(ctx.last_command.command, "x");
    assert_eq!(ctx.last_command.source, Source::Auto);
    assert_eq!(ctx.last_command.prompt_level, PromptLevel::Pause);
    assert_eq!(
        out,
        strings(&["Q", "=[AUTO]> x", PAUSE_MSG, PAUSE_MSG, BAR, ""])
    );
}

#[test]
fn pause_entry_with_dry_feed_needs_input() {
    let mut ctx = NavContext::new();
    ctx.execute(strings(&["x\n."]));
    let feed: Vec<String> = Vec::new();
    let mut out: Vec<String> = Vec::new();
    let r = ctx.next_command("Q", &feed, 0, &mut out);
    assert!(matches!(r, Err(NavError::NeedInput)));
    assert_eq!(ctx.get_stack(), &strings(&["x\n."])[..], "the context is unchanged");
    assert_eq!(out, strings(&["Q", "=[AUTO]> x", PAUSE_MSG]));
}

#[test]
fn confirmable_entry_accepted_by_default() {
    let mut ctx = NavContext::new();
    ctx.execute(strings(&["42\n?"]));
    let feed = strings(&[""]);
    let mut out: Vec<String> = Vec::new();
    let p = ctx.next_command("Q", &feed, 0, &mut out).unwrap();
    assert_eq!(p, 1);
    assert_eq!(ctx.last_command.command, "42");
    assert_eq!(ctx.last_command.source, Source::User);
    assert_eq!(ctx.last_command.prompt_level, PromptLevel::Pause);
    assert!(ctx.get_stack().is_empty());
    assert_eq!(out.last().unwrap(), "Q", "the outer prompt is printed on acceptance");
}

#[test]
fn confirmable_entry_accepted_by_yes() {
    let mut ctx = NavContext::new();
    ctx.execute(strings(&["42\n?"]));
    let feed = strings(&["yes"]);
    let mut out: Vec<String> = Vec::new();
    let p = ctx.next_command("Q", &feed, 0, &mut out).unwrap();
    assert_eq!(p, 1);
    assert_eq!(ctx.last_command.command, "42");
    assert_eq!(ctx.last_command.source, Source::User);
    assert_eq!(ctx.last_command.prompt_level, PromptLevel::Pause);
}

#[test]
fn confirmable_entry_cancelled_clears_queue_and_reads_live() {
    let mut ctx = NavContext::new();
    ctx.execute(strings(&["42\n?", "later"]));
    assert_eq!(ctx.get_stack().len(), 2);
    let feed = strings(&["cancel", "typed instead"]);
    let mut out: Vec<String> = Vec::new();
    let p = ctx.next_command("Q", &feed, 0, &mut out).unwrap();
    assert_eq!(p, 2);
    assert_eq!(ctx.last_command.command, "typed instead");
    assert_eq!(ctx.last_command.source, Source::User);
    assert_eq!(ctx.last_command.prompt_level, PromptLevel::Pause);
    assert!(
        ctx.get_stack().is_empty(),
        "cancelling derails the rest of the script: the queue is cleared"
    );
}

#[test]
fn queue_preserves_caller_order() {
    let mut ctx = NavContext::new();
    ctx.execute(strings(&["a", "b", "c"]));
    let feed: Vec<String> = Vec::new();
    let mut out: Vec<String> = Vec::new();
    let mut seen: Vec<String> = Vec::new();
    for _ in 0..3 {
        ctx.next_command("Q", &feed, 0, &mut out).unwrap();
        seen.push(ctx.last_command.command.clone());
    }
    assert_eq!(seen, strings(&["a", "b", "c"]));
}

#[test]
fn execute_appends_batches_in_order() {
    let mut ctx = NavContext::new();
    ctx.execute(strings(&["a", "b"]));
    ctx.execute(strings(&["c"]));
    let feed: Vec<String> = Vec::new();
    let mut out: Vec<String> = Vec::new();
    // The later batch is consumed first: the queue is popped from the back.
    let mut seen: Vec<String> = Vec::new();
    for _ in 0..3 {
        ctx.next_command("Q", &feed, 0, &mut out).unwrap();
        seen.push(ctx.last_command.command.clone());
    }
    assert_eq!(seen, strings(&["c", "a", "b"]));
}

#[test]
fn executing_an_empty_batch_changes_nothing() {
    let mut ctx = NavContext::new();
    ctx.execute(strings(&["a"]));
    ctx.execute(Vec::new());
    assert_eq!(ctx.get_stack(), &strings(&["a"])[..]);
}

#[test]
fn a_lone_line_feed_entry_shows_an_empty_command() {
    let mut ctx = NavContext::new();
    ctx.execute(strings(&["\n"]));
    let feed: Vec<String> = Vec::new();
    let mut out: Vec<String> = Vec::new();
    let p = ctx.next_command("Q", &feed, 0, &mut out).unwrap();
    assert_eq!(p, 0);
    assert_eq!(ctx.last_command.command, "");
    assert_eq!(ctx.last_command.source, Source::Auto);
    assert_eq!(ctx.last_command.prompt_level, PromptLevel::Show);
    assert_eq!(out, strings(&["Q", "=[AUTO]> ", BAR, ""]));
}

#[test]
fn live_read_when_queue_is_empty() {
    let mut ctx = NavContext::new();
    let feed = strings(&["hello"]);
    let mut out: Vec<String> = Vec::new();
    let p = ctx.next_command("Q", &feed, 0, &mut out).unwrap();
    assert_eq!(p, 1);
    assert_eq!(ctx.last_command.command, "hello");
    assert_eq!(ctx.last_command.source, Source::User);
    assert_eq!(ctx.last_command.prompt_level, PromptLevel::Pause);
    assert_eq!(out, strings(&["Q", BAR, ""]));
}

#[test]
fn live_read_with_dry_feed_needs_input_after_prompt() {
    let mut ctx = NavContext::new();
    let feed: Vec<String> = Vec::new();
    let mut out: Vec<String> = Vec::new();
    let r = ctx.next_command("Q", &feed, 0, &mut out);
    assert!(matches!(r, Err(NavError::NeedInput)));
    assert_eq!(out, strings(&["Q"]), "the prompt is shown before the read blocks");
}

#[test]
fn malformed_marker_is_fatal_with_diagnostic() {
    let mut ctx = NavContext::new();
    ctx.execute(strings(&["rest"]));
    let feed: Vec<String> = Vec::new();
    let mut out: Vec<String> = Vec::new();
    // "rest" resolves first (bare), then the malformed entry faults.
    ctx.next_command("Q", &feed, 0, &mut out).unwrap();
    assert_eq!(ctx.last_command.command, "rest");
    ctx.execute(strings(&["bad\nz", "after"]));
    let r = ctx.next_command("Q2", &feed, 0, &mut out);
    match r {
        Err(NavError::Automation {
            prompt,
            command,
            remaining,
        }) => {
            assert_eq!(prompt, "Q2");
            assert_eq!(command, "bad\nz");
            assert_eq!(remaining, strings(&["after"]));
        }
        other => panic!("expected an automation fault, got {:?}", other),
    }
    assert!(out.is_empty(), "a malformed marker prints nothing");
}

#[test]
fn prompt_shows_lines_behind_cursor_markers() {
    let mut ctx = NavContext::new();
    ctx.execute(strings(&["x\n\n"]));
    let feed: Vec<String> = Vec::new();
    let mut out: Vec<String> = Vec::new();
    ctx.next_command("Q", &feed, 0, &mut out).unwrap();
    assert_eq!(ctx.last_command.prompt_level, PromptLevel::Show);
    out.clear();
    let p = ctx.prompt("hello\nworld", &feed, 0, &mut out).unwrap();
    assert_eq!(p, 0);
    assert_eq!(out, strings(&["> hello", "> world", BAR, ""]));
}

#[test]
fn prompt_at_pause_level_blocks_for_acknowledgement() {
    let mut ctx = NavContext::new();
    let feed = strings(&["typed", "not blank", ""]);
    let mut out: Vec<String> = Vec::new();
    let p = ctx.next_command("Q", &feed, 0, &mut out).unwrap();
    assert_eq!(p, 1);
    assert_eq!(ctx.last_command.prompt_level, PromptLevel::Pause);
    out.clear();
    let p2 = ctx.prompt("done", &feed, p, &mut out).unwrap();
    assert_eq!(p2, 3, "the pause consumed lines up to the blank one");
    assert_eq!(out, strings(&["> done", PAUSE_MSG, PAUSE_MSG, BAR, ""]));
}

#[test]
fn fresh_context_prompts_are_shown_and_pause() {
    let ctx = NavContext::new();
    let feed = strings(&[""]);
    let mut out: Vec<String> = Vec::new();
    let p = ctx.prompt("welcome", &feed, 0, &mut out).unwrap();
    assert_eq!(p, 1);
    assert_eq!(out, strings(&["> welcome", PAUSE_MSG, BAR, ""]));
}

#[test]
fn confirm_answers_from_the_scripted_queue() {
    let mut ctx = NavContext::new();
    ctx.execute(strings(&["y"]));
    let feed: Vec<String> = Vec::new();
    let mut out: Vec<String> = Vec::new();
    let (answer, p) = ctx.confirm("sure?", None, &feed, 0, &mut out).unwrap();
    assert!(answer);
    assert_eq!(p, 0);

    let mut ctx2 = NavContext::new();
    ctx2.execute(strings(&["NO"]));
    let (answer2, _) = ctx2.confirm("sure?", None, &feed, 0, &mut out).unwrap();
    assert!(!answer2, "the comparison ignores ASCII case");
}

#[test]
fn confirm_blank_takes_the_default() {
    let mut ctx = NavContext::new();
    let feed = strings(&[""]);
    let mut out: Vec<String> = Vec::new();
    let (answer, p) = ctx
        .confirm("sure?", Some(true), &feed, 0, &mut out)
        .unwrap();
    assert!(answer);
    assert_eq!(p, 1);

    let mut ctx2 = NavContext::new();
    let (answer2, _) = ctx2
        .confirm("sure?", Some(false), &feed, 0, &mut out)
        .unwrap();
    assert!(!answer2);
}

#[test]
fn confirm_reasks_a_live_user_after_noise() {
    let mut ctx = NavContext::new();
    // An unrecognised live answer is retried: "maybe" is no answer, the
    // second round reads "yes".
    let feed = strings(&["maybe", "yes"]);
    let mut out: Vec<String> = Vec::new();
    let (answer, p) = ctx.confirm("sure?", None, &feed, 0, &mut out).unwrap();
    assert!(answer);
    assert_eq!(p, 2);
}

#[test]
fn confirm_scripted_noise_is_fatal() {
    let mut ctx = NavContext::new();
    ctx.execute(strings(&["maybe"]));
    let feed: Vec<String> = Vec::new();
    let mut out: Vec<String> = Vec::new();
    let r = ctx.confirm("sure?", None, &feed, 0, &mut out);
    match r {
        Err(NavError::Automation { command, .. }) => assert_eq!(command, "maybe"),
        other => panic!("expected an automation fault, got {:?}", other),
    }
}

#[test]
fn confirm_blank_scripted_without_default_is_fatal() {
    let mut ctx = NavContext::new();
    ctx.execute(strings(&[""]));
    let feed: Vec<String> = Vec::new();
    let mut out: Vec<String> = Vec::new();
    let r = ctx.confirm("sure?", None, &feed, 0, &mut out);
    assert!(matches!(r, Err(NavError::Automation { .. })));
}

#[test]
fn need_input_leaves_confirm_context_unchanged() {
    let mut ctx = NavContext::new();
    // The confirmable entry is accepted (blank line), but "maybe" answers
    // nothing; the live retry then runs dry. The context must be restored
    // so the caller can extend the feed and call again unchanged.
    ctx.execute(strings(&["maybe\n?"]));
    let feed = strings(&[""]);
    let mut out: Vec<String> = Vec::new();
    let r = ctx.confirm("sure?", None, &feed, 0, &mut out);
    assert!(matches!(r, Err(NavError::NeedInput)));
    assert_eq!(ctx.get_stack(), &strings(&["maybe\n?"])[..]);
    let feed2 = strings(&["", "y"]);
    let mut out2: Vec<String> = Vec::new();
    let (answer, p) = ctx.confirm("sure?", None, &feed2, 0, &mut out2).unwrap();
    assert!(answer);
    assert_eq!(p, 2);
}
