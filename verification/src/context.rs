//! The navigation context: scripted queue, command resolution, prompt
//! gating and the confirmation sub-flow.
//!
//! Reading and writing a real terminal stay outside the library. Input is
//! modelled as a feed: a vector of the lines the input port has produced so
//! far, consumed from a position onward, each line already stripped of its
//! line terminator. Output is modelled as a vector of lines to which every
//! function appends what it would print; the caller prints each element
//! followed by a line break. A function that would block on a read past the
//! end of the feed returns [`NavError::NeedInput`], leaves the context
//! unchanged, and has appended to the output exactly the lines shown before
//! blocking; the caller reads one more line, extends the feed and calls
//! again from the same position.

use vstd::prelude::*;

use crate::text::clone_strings;
use crate::text::contains_newline;
use crate::text::eq_fold;
use crate::text::has_newline;
use crate::text::is_blank;
use crate::text::split_lines;
use crate::text::split_lines_str;
use crate::text::str_eq;
use crate::text::str_eq_fold;
use crate::text::trim_seq;
use crate::text::trim_str;
use crate::text::underscores;
use crate::text::views;

verus! {

/// Length of the separator bar printed after inputs and prompts.
pub const DEFAULT_BAR_LENGTH: usize = 32;

/// Message shown while waiting for an empty acknowledgement line.
pub const DEFAULT_PAUSE_MESSAGE: &'static str = "Press [Enter] to continue.";

/// Cue shown by the caller in front of a live read.
pub const DEFAULT_USER_INPUT_CUE: &'static str = "=> ";

/// Where a resolved command came from: a live read or the scripted queue.
#[derive(Debug, Clone, Copy, PartialEq, Eq, Structural)]
pub enum Source {
    User,
    Auto,
}

/// How much a resolved command lets later prompts show: nothing, the text,
/// or the text followed by a blocking acknowledgement. The order is
/// `Hide < Show < Pause`.
#[derive(Debug, Clone, Copy, PartialEq, Eq, Structural)]
pub enum PromptLevel {
    Hide,
    Show,
    Pause,
}

/// The rank of a level in the order `Hide < Show < Pause`.
pub open spec fn level_num(l: PromptLevel) -> int {
    match l {
        PromptLevel::Hide => 0,
        PromptLevel::Show => 1,
        PromptLevel::Pause => 2,
    }
}

impl PromptLevel {
    /// Whether `self` ranks at least as high as `other`.
    pub fn at_least(self, other: PromptLevel) -> (r: bool)
        ensures
            r == (level_num(self) >= level_num(other)),
    {
        let a: u8 = match self {
            PromptLevel::Hide => 0,
            PromptLevel::Show => 1,
            PromptLevel::Pause => 2,
        };
        let b: u8 = match other {
            PromptLevel::Hide => 0,
            PromptLevel::Show => 1,
            PromptLevel::Pause => 2,
        };
        a >= b
    }
}

/// One resolved input event: its text, where it came from, and how much
/// later prompts may show.
#[derive(Debug)]
pub struct Command {
    pub command: String,
    pub source: Source,
    pub prompt_level: PromptLevel,
}

/// The spec-level image of a [`Command`].
pub struct CommandModel {
    pub text: Seq<char>,
    pub source: Source,
    pub level: PromptLevel,
}

/// Whether the executable command `c` realises the model `m`.
pub open spec fn command_is(c: Command, m: CommandModel) -> bool {
    c.command@ == m.text && c.source == m.source && c.prompt_level == m.level
}

/// How a function that consumed feed lines ended: `Done` carries the next
/// unread feed position and the lines printed; `More` means the feed ran
/// dry, with the lines printed before blocking.
pub enum FeedScan {
    Done { pos: int, out: Seq<Seq<char>> },
    More { out: Seq<Seq<char>> },
}

/// A failure of the engine.
///
/// `NeedInput` is not a fault: the feed ran dry where the input port would
/// block, and the caller should supply one more line. `Automation` is
/// fatal: a scripted entry was malformed or drove a menu into a state its
/// script did not anticipate; it carries the prompt, the offending command
/// text and the remaining queue in the order it would be consumed.
#[derive(Debug)]
pub enum NavError {
    NeedInput,
    Automation { prompt: String, command: String, remaining: Vec<String> },
}

/// The two lines of the separator bar: `length` underscores, then a blank
/// line.
pub open spec fn bar_lines_of(length: int) -> Seq<Seq<char>> {
    seq![Seq::new(length as nat, |i: int| '_'), Seq::<char>::empty()]
}

/// The separator bar at its default length.
pub open spec fn bar_lines() -> Seq<Seq<char>> {
    bar_lines_of(32)
}

/// Appends the separator bar to the output: a row of underscores and a
/// blank line.
pub fn print_bar(length: usize, output: &mut Vec<String>)
    ensures
        views(final(output)@) == views(old(output)@) + bar_lines_of(length as int),
{
    let ghost out0 = output@;
    output.push(underscores(length));
    output.push(String::new());
    proof {
        assert(views(output@) =~= views(out0) + bar_lines_of(length as int));
    }
}

/// The pause sub-flow from feed position `pos`: each attempt prints
/// `message` and reads a line; a blank line ends the pause and is followed
/// by the separator bar.
pub open spec fn pause_scan(message: Seq<char>, feed: Seq<Seq<char>>, pos: int) -> FeedScan
    decreases feed.len() - pos,
{
    if pos < 0 || pos >= feed.len() {
        FeedScan::More { out: seq![message] }
    } else if is_blank(feed[pos]) {
        FeedScan::Done { pos: pos + 1, out: seq![message] + bar_lines() }
    } else {
        match pause_scan(message, feed, pos + 1) {
            FeedScan::Done { pos: p, out: o } => FeedScan::Done {
                pos: p,
                out: seq![message] + o,
            },
            FeedScan::More { out: o } => FeedScan::More { out: seq![message] + o },
        }
    }
}

/// When the pause sub-flow completes, the next position lies past `pos`
/// and within the feed, and the line before it is blank.
pub proof fn lemma_pause_scan_done(message: Seq<char>, feed: Seq<Seq<char>>, pos: int)
    requires
        0 <= pos <= feed.len(),
    ensures
        pause_scan(message, feed, pos) matches FeedScan::Done { pos: p, .. } ==> pos < p
            <= feed.len() && is_blank(feed[p - 1]),
    decreases feed.len() - pos,
{
    if pos < feed.len() && !is_blank(feed[pos]) {
        lemma_pause_scan_done(message, feed, pos + 1);
    }
}

/// Blocks until the user supplies an empty line: prints `message` before
/// each read, consumes feed lines until a blank one, then prints the
/// separator bar. With no blank line left in the feed, returns
/// [`NavError::NeedInput`] after printing what precedes the blocking read.
pub fn pause(message: &str, feed: &Vec<String>, pos: usize, output: &mut Vec<String>) -> (r:
    Result<usize, NavError>)
    requires
        pos <= feed@.len(),
    ensures
        match pause_scan(message@, views(feed@), pos as int) {
            FeedScan::Done { pos: p, out: o } => r matches Ok(q) && q as int == p && p
                <= feed@.len() && views(final(output)@) == views(old(output)@) + o,
            FeedScan::More { out: o } => r == Err::<usize, NavError>(NavError::NeedInput) && views(
                final(output)@,
            ) == views(old(output)@) + o,
        },
    decreases feed@.len() - pos,
{
    let ghost out0 = output@;
    output.push(message.to_owned());
    proof {
        assert(views(output@) =~= views(out0) + seq![message@]);
    }
    if pos == feed.len() {
        return Err(NavError::NeedInput);
    }
    let line = &feed[pos];
    proof {
        assert(line@ == views(feed@)[pos as int]);
    }
    let t = trim_str(line.as_str());
    if t.unicode_len() == 0 {
        print_bar(DEFAULT_BAR_LENGTH, output);
        proof {
            assert(views(output@) =~= views(out0) + (seq![message@] + bar_lines()));
        }
        Ok(pos + 1)
    } else {
        let r = pause(message, feed, pos + 1, output);
        proof {
            match pause_scan(message@, views(feed@), pos + 1int) {
                FeedScan::Done { pos: p, out: o } => {
                    assert(views(output@) =~= views(out0) + (seq![message@] + o));
                },
                FeedScan::More { out: o } => {
                    assert(views(output@) =~= views(out0) + (seq![message@] + o));
                },
            }
        }
        r
    }
}

/// How the confirmation sub-flow of a confirmable entry ended: a decision
/// to accept or cancel with the next feed position and the lines printed,
/// or `More` when the feed ran dry.
pub enum ConfirmScan {
    Decided { accept: bool, pos: int, out: Seq<Seq<char>> },
    More { out: Seq<Seq<char>> },
}

/// The prompt of the nested confirmation menu for a scripted entry whose
/// text is `t`: the question and its three options, where an empty line or
/// `yes` accepts and `cancel` overrides.
pub open spec fn confirm_panel(t: Seq<char>) -> Seq<char> {
    "> Scripted input: ["@ + t
        + "]\n> Accept?\n -- [ Options ] --\n[] : accept\n[yes] : accept\n[cancel] : type a replacement"@
}

/// Builds the text of [`confirm_panel`].
fn build_confirm_panel(t: &str) -> (r: String)
    ensures
        r@ == confirm_panel(t@),
{
    let mut r = "> Scripted input: [".to_owned();
    r.append(t);
    r.append(
        "]\n> Accept?\n -- [ Options ] --\n[] : accept\n[yes] : accept\n[cancel] : type a replacement",
    );
    r
}

/// The nested confirmation menu from feed position `pos`, one-shot and
/// fed by live reads only (it runs on a fresh context, never on the
/// script being evaluated). Each round shows `panel` and reads a line:
/// blank or `yes` accepts, `cancel` declines, anything else draws a
/// corrective notice followed by the pause sub-flow (`acking` rounds),
/// after which the menu asks again.
pub open spec fn confirm_scan(
    panel: Seq<char>,
    feed: Seq<Seq<char>>,
    pos: int,
    acking: bool,
) -> ConfirmScan
    decreases feed.len() - pos,
{
    if acking {
        if pos < 0 || pos >= feed.len() {
            ConfirmScan::More { out: seq![DEFAULT_PAUSE_MESSAGE@] }
        } else if is_blank(feed[pos]) {
            match confirm_scan(panel, feed, pos + 1, false) {
                ConfirmScan::Decided { accept, pos: p, out: o } => ConfirmScan::Decided {
                    accept,
                    pos: p,
                    out: seq![DEFAULT_PAUSE_MESSAGE@] + bar_lines() + o,
                },
                ConfirmScan::More { out: o } => ConfirmScan::More {
                    out: seq![DEFAULT_PAUSE_MESSAGE@] + bar_lines() + o,
                },
            }
        } else {
            match confirm_scan(panel, feed, pos + 1, true) {
                ConfirmScan::Decided { accept, pos: p, out: o } => ConfirmScan::Decided {
                    accept,
                    pos: p,
                    out: seq![DEFAULT_PAUSE_MESSAGE@] + o,
                },
                ConfirmScan::More { out: o } => ConfirmScan::More {
                    out: seq![DEFAULT_PAUSE_MESSAGE@] + o,
                },
            }
        }
    } else {
        if pos < 0 || pos >= feed.len() {
            ConfirmScan::More { out: seq![panel] }
        } else {
            let tok = trim_seq(feed[pos]);
            if tok.len() == 0 || tok == "yes"@ {
                ConfirmScan::Decided { accept: true, pos: pos + 1, out: seq![panel] + bar_lines() }
            } else if tok == "cancel"@ {
                ConfirmScan::Decided { accept: false, pos: pos + 1, out: seq![panel] + bar_lines() }
            } else {
                match confirm_scan(panel, feed, pos + 1, true) {
                    ConfirmScan::Decided { accept, pos: p, out: o } => ConfirmScan::Decided {
                        accept,
                        pos: p,
                        out: seq![panel] + bar_lines() + seq![cue_line("Unrecognized command."@)]
                            + o,
                    },
                    ConfirmScan::More { out: o } => ConfirmScan::More {
                        out: seq![panel] + bar_lines() + seq![cue_line("Unrecognized command."@)]
                            + o,
                    },
                }
            }
        }
    }
}

/// When the confirmation sub-flow decides, the next position lies past
/// `pos` and within the feed.
pub proof fn lemma_confirm_scan_decided(
    panel: Seq<char>,
    feed: Seq<Seq<char>>,
    pos: int,
    acking: bool,
)
    requires
        0 <= pos <= feed.len(),
    ensures
        confirm_scan(panel, feed, pos, acking) matches ConfirmScan::Decided { pos: p, .. } ==> pos
            < p <= feed.len(),
    decreases feed.len() - pos,
{
    if pos < feed.len() {
        lemma_confirm_scan_decided(panel, feed, pos + 1, false);
        lemma_confirm_scan_decided(panel, feed, pos + 1, true);
    }
}

/// Runs the nested confirmation menu, as [`confirm_scan`] describes.
fn run_confirm(
    panel: &str,
    feed: &Vec<String>,
    pos: usize,
    acking: bool,
    output: &mut Vec<String>,
) -> (r: Result<(bool, usize), NavError>)
    requires
        pos <= feed@.len(),
    ensures
        match confirm_scan(panel@, views(feed@), pos as int, acking) {
            ConfirmScan::Decided { accept, pos: p, out: o } => r matches Ok((a, q)) && a == accept
                && q as int == p && views(final(output)@) == views(old(output)@) + o,
            ConfirmScan::More { out: o } => r == Err::<(bool, usize), NavError>(
                NavError::NeedInput,
            ) && views(final(output)@) == views(old(output)@) + o,
        },
    decreases feed@.len() - pos,
{
    let ghost out0 = output@;
    if acking {
        output.push(DEFAULT_PAUSE_MESSAGE.to_owned());
        proof {
            assert(views(output@) =~= views(out0) + seq![DEFAULT_PAUSE_MESSAGE@]);
        }
        if pos == feed.len() {
            return Err(NavError::NeedInput);
        }
        let line = &feed[pos];
        proof {
            assert(line@ == views(feed@)[pos as int]);
        }
        let blank = trim_str(line.as_str()).unicode_len() == 0;
        if blank {
            print_bar(DEFAULT_BAR_LENGTH, output);
            let r = run_confirm(panel, feed, pos + 1, false, output);
            proof {
                match confirm_scan(panel@, views(feed@), pos + 1int, false) {
                    ConfirmScan::Decided { accept, pos: p, out: o } => {
                        assert(views(output@) =~= views(out0) + (seq![DEFAULT_PAUSE_MESSAGE@]
                            + bar_lines() + o));
                    },
                    ConfirmScan::More { out: o } => {
                        assert(views(output@) =~= views(out0) + (seq![DEFAULT_PAUSE_MESSAGE@]
                            + bar_lines() + o));
                    },
                }
            }
            r
        } else {
            let r = run_confirm(panel, feed, pos + 1, true, output);
            proof {
                match confirm_scan(panel@, views(feed@), pos + 1int, true) {
                    ConfirmScan::Decided { accept, pos: p, out: o } => {
                        assert(views(output@) =~= views(out0) + (seq![DEFAULT_PAUSE_MESSAGE@] + o));
                    },
                    ConfirmScan::More { out: o } => {
                        assert(views(output@) =~= views(out0) + (seq![DEFAULT_PAUSE_MESSAGE@] + o));
                    },
                }
            }
            r
        }
    } else {
        output.push(panel.to_owned());
        proof {
            assert(views(output@) =~= views(out0) + seq![panel@]);
        }
        if pos == feed.len() {
            return Err(NavError::NeedInput);
        }
        let line = &feed[pos];
        proof {
            assert(line@ == views(feed@)[pos as int]);
        }
        let tok = trim_str(line.as_str());
        print_bar(DEFAULT_BAR_LENGTH, output);
        proof {
            assert(views(output@) =~= views(out0) + (seq![panel@] + bar_lines()));
        }
        if tok.unicode_len() == 0 || str_eq(tok, "yes") {
            Ok((true, pos + 1))
        } else if str_eq(tok, "cancel") {
            Ok((false, pos + 1))
        } else {
            let mut notice = "> ".to_owned();
            notice.append("Unrecognized command.");
            let ghost out1 = output@;
            output.push(notice);
            proof {
                assert(views(output@) =~= views(out1).push(cue_line("Unrecognized command."@)));
                assert(views(output@) =~= views(out0) + (seq![panel@] + bar_lines() + seq![
                    cue_line("Unrecognized command."@),
                ]));
            }
            let r = run_confirm(panel, feed, pos + 1, true, output);
            proof {
                match confirm_scan(panel@, views(feed@), pos + 1int, true) {
                    ConfirmScan::Decided { accept, pos: p, out: o } => {
                        assert(views(output@) =~= views(out0) + (seq![panel@] + bar_lines() + seq![
                            cue_line("Unrecognized command."@),
                        ] + o));
                    },
                    ConfirmScan::More { out: o } => {
                        assert(views(output@) =~= views(out0) + (seq![panel@] + bar_lines() + seq![
                            cue_line("Unrecognized command."@),
                        ] + o));
                    },
                }
            }
            r
        }
    }
}

/// The echo of a scripted input that is shown to the reader.
pub open spec fn echo_line(t: Seq<char>) -> Seq<char> {
    "=[AUTO]> "@ + t
}

/// How one resolution ends.
///
/// `Got` carries the resolved command, the queue and feed position left
/// behind, and the lines printed. `More` means a read would block past the
/// feed, with the lines printed before blocking. `Bad` names a queued
/// entry whose directive marker is none of the three known ones.
pub enum Resolution {
    Got { cmd: CommandModel, stack: Seq<Seq<char>>, pos: int, out: Seq<Seq<char>> },
    More { out: Seq<Seq<char>> },
    Bad { entry: Seq<char> },
}

/// One step of command resolution.
///
/// With the queue empty, the command is a live read: the prompt is
/// printed, one feed line becomes the command text, `source` is `User`
/// and the level is `Pause`, and the separator bar follows the read.
///
/// Otherwise the last queued entry is consumed. An entry without a line
/// feed replays silently: `source` is `Auto`, the level is `Hide`,
/// nothing is printed and the feed is untouched. An entry with a line
/// feed is directive-tagged: its last character is the marker and the
/// trimmed remainder is the command text.
///
/// Marker `?`: the nested confirmation menu of [`confirm_scan`] runs on
/// live reads. Accepting (a blank line or `yes`) keeps the scripted text
/// as if typed by the user (`User`, `Pause`) and then prints the prompt.
/// Cancelling clears the whole remaining queue and falls back to a live
/// read for the same prompt.
///
/// Marker `.`: the prompt and the echoed text are printed, the pause
/// sub-flow blocks for an acknowledgement, and the command is `Auto` at
/// level `Pause`.
///
/// Marker `\n` (the entry ended in two line feeds): the prompt and the
/// echoed text are printed with a separator bar and no blocking; the
/// command is `Auto` at level `Show`. Any other marker is malformed.
pub open spec fn resolve_step(
    stack: Seq<Seq<char>>,
    prompt: Seq<char>,
    feed: Seq<Seq<char>>,
    pos: int,
) -> Resolution {
    if stack.len() == 0 {
        if 0 <= pos < feed.len() {
            Resolution::Got {
                cmd: CommandModel {
                    text: feed[pos],
                    source: Source::User,
                    level: PromptLevel::Pause,
                },
                stack,
                pos: pos + 1,
                out: seq![prompt] + bar_lines(),
            }
        } else {
            Resolution::More { out: seq![prompt] }
        }
    } else {
        let e = stack.last();
        let rest = stack.drop_last();
        if !has_newline(e) {
            Resolution::Got {
                cmd: CommandModel { text: e, source: Source::Auto, level: PromptLevel::Hide },
                stack: rest,
                pos,
                out: Seq::empty(),
            }
        } else {
            let t = trim_seq(e.drop_last());
            if e.last() == '?' {
                match confirm_scan(confirm_panel(t), feed, pos, false) {
                    ConfirmScan::Decided { accept: true, pos: p, out: o } => Resolution::Got {
                        cmd: CommandModel {
                            text: t,
                            source: Source::User,
                            level: PromptLevel::Pause,
                        },
                        stack: rest,
                        pos: p,
                        out: o + seq![prompt],
                    },
                    ConfirmScan::Decided { accept: false, pos: p, out: o } => if p < feed.len() {
                        Resolution::Got {
                            cmd: CommandModel {
                                text: feed[p],
                                source: Source::User,
                                level: PromptLevel::Pause,
                            },
                            stack: Seq::empty(),
                            pos: p + 1,
                            out: o + seq![prompt] + bar_lines(),
                        }
                    } else {
                        Resolution::More { out: o + seq![prompt] }
                    },
                    ConfirmScan::More { out: o } => Resolution::More { out: o },
                }
            } else if e.last() == '.' {
                match pause_scan(DEFAULT_PAUSE_MESSAGE@, feed, pos) {
                    FeedScan::Done { pos: p, out: o } => Resolution::Got {
                        cmd: CommandModel {
                            text: t,
                            source: Source::Auto,
                            level: PromptLevel::Pause,
                        },
                        stack: rest,
                        pos: p,
                        out: seq![prompt, echo_line(t)] + o,
                    },
                    FeedScan::More { out: o } => Resolution::More {
                        out: seq![prompt, echo_line(t)] + o,
                    },
                }
            } else if e.last() == '\n' {
                Resolution::Got {
                    cmd: CommandModel { text: t, source: Source::Auto, level: PromptLevel::Show },
                    stack: rest,
                    pos,
                    out: seq![prompt, echo_line(t)] + bar_lines(),
                }
            } else {
                Resolution::Bad { entry: e }
            }
        }
    }
}

/// Every successful resolution strictly consumes: it either pops a queued
/// entry or advances the feed, so queue plus unread feed shrink together.
pub proof fn lemma_resolve_step_consumes(
    stack: Seq<Seq<char>>,
    prompt: Seq<char>,
    feed: Seq<Seq<char>>,
    pos: int,
)
    requires
        0 <= pos <= feed.len(),
    ensures
        resolve_step(stack, prompt, feed, pos) matches Resolution::Got { stack: st2, pos: p2, .. }
            ==> pos <= p2 <= feed.len() && st2.len() + (feed.len() - p2) < stack.len() + (feed.len()
            - pos),
{
    if stack.len() > 0 {
        let e = stack.last();
        if has_newline(e) {
            let t = trim_seq(e.drop_last());
            if e.last() == '?' {
                lemma_confirm_scan_decided(confirm_panel(t), feed, pos, false);
            } else if e.last() == '.' {
                lemma_pause_scan_done(DEFAULT_PAUSE_MESSAGE@, feed, pos);
            }
        }
    }
}

/// How the confirmation question ended: an answer with the state left
/// behind, a dry feed, or a fatal automation fault with its diagnostic
/// content (offending text, remaining queue in consumption order) and the
/// lines printed up to it.
pub enum ConfirmModel {
    Decided { value: bool, cmd: CommandModel, stack: Seq<Seq<char>>, pos: int, out: Seq<Seq<char>> },
    More { out: Seq<Seq<char>> },
    Fault { command: Seq<char>, remaining: Seq<Seq<char>>, out: Seq<Seq<char>> },
}

/// The confirmation question: commands are resolved until one answers.
/// A trimmed `y` or `yes` (any ASCII case) answers true, `n` or `no`
/// false, and a blank command gives `default` when there is one. Any
/// other command from the scripted queue is a fatal automation fault; a
/// live one merely asks again.
pub open spec fn confirm_model(
    stack: Seq<Seq<char>>,
    prompt: Seq<char>,
    feed: Seq<Seq<char>>,
    pos: int,
    default: Option<bool>,
) -> ConfirmModel
    decreases stack.len() + feed.len() - pos,
    via confirm_model_decreases
{
    if !(0 <= pos <= feed.len()) {
        ConfirmModel::More { out: Seq::empty() }
    } else {
        match resolve_step(stack, prompt, feed, pos) {
            Resolution::More { out } => ConfirmModel::More { out },
            Resolution::Bad { entry } => ConfirmModel::Fault {
                command: entry,
                remaining: stack.drop_last().reverse(),
                out: Seq::empty(),
            },
            Resolution::Got { cmd, stack: st2, pos: p2, out } => {
                let tok = trim_seq(cmd.text);
                if eq_fold(tok, "y"@) || eq_fold(tok, "yes"@) {
                    ConfirmModel::Decided { value: true, cmd, stack: st2, pos: p2, out }
                } else if eq_fold(tok, "n"@) || eq_fold(tok, "no"@) {
                    ConfirmModel::Decided { value: false, cmd, stack: st2, pos: p2, out }
                } else if tok.len() == 0 && default is Some {
                    ConfirmModel::Decided { value: default->0, cmd, stack: st2, pos: p2, out }
                } else if cmd.source == Source::Auto {
                    ConfirmModel::Fault { command: cmd.text, remaining: st2.reverse(), out }
                } else {
                    match confirm_model(st2, prompt, feed, p2, default) {
                        ConfirmModel::Decided { value, cmd: c2, stack: s3, pos: p3, out: o2 } => ConfirmModel::Decided {
                            value,
                            cmd: c2,
                            stack: s3,
                            pos: p3,
                            out: out + o2,
                        },
                        ConfirmModel::More { out: o2 } => ConfirmModel::More { out: out + o2 },
                        ConfirmModel::Fault { command, remaining, out: o2 } => ConfirmModel::Fault {
                            command,
                            remaining,
                            out: out + o2,
                        },
                    }
                }
            },
        }
    }
}

#[via_fn]
proof fn confirm_model_decreases(
    stack: Seq<Seq<char>>,
    prompt: Seq<char>,
    feed: Seq<Seq<char>>,
    pos: int,
    default: Option<bool>,
) {
    if 0 <= pos <= feed.len() {
        lemma_resolve_step_consumes(stack, prompt, feed, pos);
    }
}

/// A message line as the prompt gate shows it, behind a cursor marker.
pub open spec fn cue_line(l: Seq<char>) -> Seq<char> {
    "> "@ + l
}

/// All lines of a gated message, each behind the cursor marker.
pub open spec fn cue_lines(ls: Seq<Seq<char>>) -> Seq<Seq<char>> {
    ls.map_values(|l: Seq<char>| cue_line(l))
}

/// The prompt gate for a message under a level: at `Hide` nothing; at
/// `Show` the message lines behind cursor markers, then the separator bar;
/// at `Pause` the same lines, then the pause sub-flow in place of the bar.
pub open spec fn prompt_scan(
    level: PromptLevel,
    message: Seq<char>,
    feed: Seq<Seq<char>>,
    pos: int,
) -> FeedScan {
    match level {
        PromptLevel::Hide => FeedScan::Done { pos, out: Seq::empty() },
        PromptLevel::Show => FeedScan::Done {
            pos,
            out: cue_lines(split_lines(message)) + bar_lines(),
        },
        PromptLevel::Pause => match pause_scan(DEFAULT_PAUSE_MESSAGE@, feed, pos) {
            FeedScan::Done { pos: p, out: o } => FeedScan::Done {
                pos: p,
                out: cue_lines(split_lines(message)) + o,
            },
            FeedScan::More { out: o } => FeedScan::More {
                out: cue_lines(split_lines(message)) + o,
            },
        },
    }
}

/// Appends each line of `lines` to the output behind a cursor marker.
fn push_cued_lines(lines: &Vec<String>, output: &mut Vec<String>)
    ensures
        views(final(output)@) == views(old(output)@) + cue_lines(views(lines@)),
{
    let ghost out0 = output@;
    let n = lines.len();
    let mut i: usize = 0;
    proof {
        assert(views(output@) =~= views(out0) + cue_lines(views(lines@).take(0)));
    }
    while i < n
        invariant
            n == lines@.len(),
            i <= n,
            views(output@) == views(out0) + cue_lines(views(lines@).take(i as int)),
        decreases n - i,
    {
        let mut pl = "> ".to_owned();
        pl.append(lines[i].as_str());
        let ghost out1 = output@;
        output.push(pl);
        proof {
            assert(views(lines@).take(i + 1) =~= views(lines@).take(i as int).push(
                views(lines@)[i as int],
            ));
            assert(cue_lines(views(lines@).take(i + 1)) =~= cue_lines(
                views(lines@).take(i as int),
            ).push(cue_line(views(lines@)[i as int])));
            assert(views(output@) =~= views(out1).push(pl@));
            assert(views(output@) =~= views(out0) + cue_lines(views(lines@).take(i + 1)));
        }
        i = i + 1;
    }
    proof {
        assert(views(lines@).take(n as int) =~= views(lines@));
    }
}

/// Stores the scripted queue and the last resolved command.
///
/// The queue lets menu options feed further commands as if the user had
/// typed them. Entries are popped from the back; [`NavContext::execute`]
/// pushes a batch reversed, so a batch is later consumed in its given
/// order.
#[derive(Debug)]
pub struct NavContext {
    pub stack: Vec<String>,
    pub last_command: Command,
}

impl NavContext {
    /// A fresh context: empty queue, and a last command that behaves as a
    /// live pause, so prompts before any resolution are shown and
    /// acknowledged.
    pub fn new() -> (r: NavContext)
        ensures
            r.stack@ =~= Seq::<String>::empty(),
            r.last_command.command@ =~= Seq::<char>::empty(),
            r.last_command.source == Source::Auto,
            r.last_command.prompt_level == PromptLevel::Pause,
    {
        NavContext {
            stack: Vec::new(),
            last_command: Command {
                command: String::new(),
                source: Source::Auto,
                prompt_level: PromptLevel::Pause,
            },
        }
    }

    /// The pending scripted entries, most recently pushed last; entries
    /// are consumed from the back.
    pub fn get_stack(&self) -> (r: &[String])
        ensures
            r@ == self.stack@,
    {
        self.stack.as_slice()
    }

    /// Queues a batch of scripted inputs so that they are consumed in the
    /// given order: the batch is pushed reversed onto the back-consumed
    /// queue.
    pub fn execute(&mut self, inputs: Vec<String>)
        ensures
            final(self).stack@ == old(self).stack@ + inputs@.reverse(),
            final(self).last_command == old(self).last_command,
    {
        let mut rest = inputs;
        loop
            invariant
                self.stack@ + rest@.reverse() == old(self).stack@ + inputs@.reverse(),
                self.last_command == old(self).last_command,
            ensures
                self.stack@ == old(self).stack@ + inputs@.reverse(),
                self.last_command == old(self).last_command,
            decreases rest@.len(),
        {
            match rest.pop() {
                Some(line) => {
                    let ghost stack0 = self.stack@;
                    let ghost rest0 = rest@;
                    self.stack.push(line);
                    proof {
                        assert(rest0.push(line).reverse() =~= seq![line] + rest0.reverse());
                        assert(stack0.push(line) + rest0.reverse() =~= stack0 + rest0.push(
                            line,
                        ).reverse());
                    }
                },
                None => {
                    proof {
                        assert(rest@.reverse() =~= Seq::<String>::empty());
                        assert(self.stack@ + rest@.reverse() =~= self.stack@);
                    }
                    break ;
                },
            }
        }
    }

    /// The fatal automation diagnostic: the prompt in force, the text of
    /// the last resolved command, and the remaining queue reversed into
    /// the order it would be consumed.
    pub fn error(&self, prompt: &str) -> (r: NavError)
        ensures
            r matches NavError::Automation { prompt: p, command: c, remaining: q } && p@ == prompt@
                && c@ == self.last_command.command@ && q@ == self.stack@.reverse(),
    {
        let mut remaining: Vec<String> = Vec::new();
        let mut i: usize = self.stack.len();
        while i > 0
            invariant
                i <= self.stack@.len(),
                remaining@ == self.stack@.skip(i as int).reverse(),
            decreases i,
        {
            i = i - 1;
            let ghost rem0 = remaining@;
            remaining.push(self.stack[i].clone());
            proof {
                assert(self.stack@.skip(i as int).reverse() =~= rem0.push(self.stack@[i as int]));
            }
        }
        proof {
            assert(self.stack@.skip(0) =~= self.stack@);
        }
        NavError::Automation {
            prompt: prompt.to_owned(),
            command: self.last_command.command.clone(),
            remaining,
        }
    }

    /// Resolves the next command for `prompt`, as [`resolve_step`]
    /// describes: from the back of the scripted queue when one is pending,
    /// else from a live read. On success the resolved command becomes
    /// `self.last_command` and the new feed position is returned. On
    /// [`NavError::NeedInput`] the context is unchanged and the output
    /// holds exactly the lines shown before the blocking read. On a
    /// malformed directive marker the context is unchanged, nothing is
    /// printed, and the diagnostic carries the entry and the rest of the
    /// queue in consumption order.
    pub fn next_command(
        &mut self,
        prompt: &str,
        feed: &Vec<String>,
        pos: usize,
        output: &mut Vec<String>,
    ) -> (r: Result<usize, NavError>)
        requires
            pos <= feed@.len(),
        ensures
            match resolve_step(views(old(self).stack@), prompt@, views(feed@), pos as int) {
                Resolution::Got { cmd, stack: st2, pos: p2, out } => r matches Ok(q) && q as int
                    == p2 && p2 <= feed@.len() && command_is(final(self).last_command, cmd)
                    && views(final(self).stack@) == st2 && views(final(output)@) == views(
                    old(output)@,
                ) + out,
                Resolution::More { out } => r == Err::<usize, NavError>(NavError::NeedInput)
                    && *final(self) == *old(self) && views(final(output)@) == views(old(output)@)
                    + out,
                Resolution::Bad { entry } => (r matches Err(e) && e matches NavError::Automation {
                    prompt: dp,
                    command: dc,
                    remaining: dq,
                } && dp@ == prompt@ && dc@ == entry && views(dq@) == views(
                    old(self).stack@,
                ).drop_last().reverse()) && *final(self) == *old(self) && final(output)@ == old(
                    output,
                )@,
            },
    {
        let ghost stack0 = views(self.stack@);
        let ghost out0 = output@;
        let n = self.stack.len();
        if n == 0 {
            output.push(prompt.to_owned());
            proof {
                assert(views(output@) =~= views(out0) + seq![prompt@]);
            }
            if pos == feed.len() {
                return Err(NavError::NeedInput);
            }
            let line = feed[pos].clone();
            proof {
                assert(line@ == views(feed@)[pos as int]);
            }
            print_bar(DEFAULT_BAR_LENGTH, output);
            proof {
                assert(views(output@) =~= views(out0) + (seq![prompt@] + bar_lines()));
            }
            self.last_command = Command {
                command: line,
                source: Source::User,
                prompt_level: PromptLevel::Pause,
            };
            return Ok(pos + 1);
        }
        proof {
            assert(self.stack@[n - 1]@ == stack0.last());
        }
        if !contains_newline(self.stack[n - 1].as_str()) {
            let e = self.stack.pop().unwrap();
            proof {
                assert(views(self.stack@) =~= stack0.drop_last());
                assert(views(output@) =~= views(out0) + Seq::<Seq<char>>::empty());
            }
            self.last_command = Command {
                command: e,
                source: Source::Auto,
                prompt_level: PromptLevel::Hide,
            };
            return Ok(pos);
        }
        let elen = self.stack[n - 1].as_str().unicode_len();
        proof {
            assert(has_newline(stack0.last()));
            assert(stack0.last().len() > 0);
        }
        let marker = self.stack[n - 1].as_str().get_char(elen - 1);
        let ghost e = stack0.last();
        if marker == '?' {
            let body = self.stack[n - 1].as_str().substring_char(0, elen - 1);
            proof {
                assert(body@ =~= e.drop_last());
            }
            let t = trim_str(body).to_owned();
            let panel = build_confirm_panel(t.as_str());
            match run_confirm(panel.as_str(), feed, pos, false, output) {
                Err(err) => {
                    proof {
                        lemma_confirm_scan_decided(panel@, views(feed@), pos as int, false);
                    }
                    Err(err)
                },
                Ok((true, p)) => {
                    let ghost out1 = output@;
                    output.push(prompt.to_owned());
                    proof {
                        assert(views(output@) =~= views(out1).push(prompt@));
                        lemma_confirm_scan_decided(panel@, views(feed@), pos as int, false);
                        match confirm_scan(panel@, views(feed@), pos as int, false) {
                            ConfirmScan::Decided { out: o, .. } => {
                                assert(views(output@) =~= views(out0) + (o + seq![prompt@]));
                            },
                            ConfirmScan::More { .. } => {},
                        }
                    }
                    self.stack.pop();
                    proof {
                        assert(views(self.stack@) =~= stack0.drop_last());
                    }
                    self.last_command = Command {
                        command: t,
                        source: Source::User,
                        prompt_level: PromptLevel::Pause,
                    };
                    Ok(p)
                },
                Ok((false, p)) => {
                    let ghost out1 = output@;
                    output.push(prompt.to_owned());
                    proof {
                        assert(views(output@) =~= views(out1).push(prompt@));
                        lemma_confirm_scan_decided(panel@, views(feed@), pos as int, false);
                        match confirm_scan(panel@, views(feed@), pos as int, false) {
                            ConfirmScan::Decided { out: o, .. } => {
                                assert(views(output@) =~= views(out0) + (o + seq![prompt@]));
                            },
                            ConfirmScan::More { .. } => {},
                        }
                    }
                    if p == feed.len() {
                        return Err(NavError::NeedInput);
                    }
                    let line = feed[p].clone();
                    proof {
                        assert(line@ == views(feed@)[p as int]);
                    }
                    print_bar(DEFAULT_BAR_LENGTH, output);
                    proof {
                        match confirm_scan(panel@, views(feed@), pos as int, false) {
                            ConfirmScan::Decided { out: o, .. } => {
                                assert(views(output@) =~= views(out0) + (o + seq![prompt@]
                                    + bar_lines()));
                            },
                            ConfirmScan::More { .. } => {},
                        }
                    }
                    self.stack.clear();
                    proof {
                        assert(views(self.stack@) =~= Seq::<Seq<char>>::empty());
                    }
                    self.last_command = Command {
                        command: line,
                        source: Source::User,
                        prompt_level: PromptLevel::Pause,
                    };
                    Ok(p + 1)
                },
            }
        } else if marker == '.' {
            let body = self.stack[n - 1].as_str().substring_char(0, elen - 1);
            proof {
                assert(body@ =~= e.drop_last());
            }
            let t = trim_str(body).to_owned();
            output.push(prompt.to_owned());
            let mut echoed = "=[AUTO]> ".to_owned();
            echoed.append(t.as_str());
            output.push(echoed);
            proof {
                assert(views(output@) =~= views(out0) + seq![prompt@, echo_line(trim_seq(
                    e.drop_last(),
                ))]);
            }
            match pause(DEFAULT_PAUSE_MESSAGE, feed, pos, output) {
                Err(err) => {
                    proof {
                        match pause_scan(DEFAULT_PAUSE_MESSAGE@, views(feed@), pos as int) {
                            FeedScan::More { out: o } => {
                                assert(views(output@) =~= views(out0) + (seq![prompt@, echo_line(
                                    trim_seq(e.drop_last()),
                                )] + o));
                            },
                            FeedScan::Done { .. } => {},
                        }
                    }
                    Err(err)
                },
                Ok(p) => {
                    proof {
                        lemma_pause_scan_done(DEFAULT_PAUSE_MESSAGE@, views(feed@), pos as int);
                        match pause_scan(DEFAULT_PAUSE_MESSAGE@, views(feed@), pos as int) {
                            FeedScan::Done { out: o, .. } => {
                                assert(views(output@) =~= views(out0) + (seq![prompt@, echo_line(
                                    trim_seq(e.drop_last()),
                                )] + o));
                            },
                            FeedScan::More { .. } => {},
                        }
                    }
                    self.stack.pop();
                    proof {
                        assert(views(self.stack@) =~= stack0.drop_last());
                    }
                    self.last_command = Command {
                        command: t,
                        source: Source::Auto,
                        prompt_level: PromptLevel::Pause,
                    };
                    Ok(p)
                },
            }
        } else if marker == '\n' {
            let body = self.stack[n - 1].as_str().substring_char(0, elen - 1);
            proof {
                assert(body@ =~= e.drop_last());
            }
            let t = trim_str(body).to_owned();
            output.push(prompt.to_owned());
            let mut echoed = "=[AUTO]> ".to_owned();
            echoed.append(t.as_str());
            output.push(echoed);
            print_bar(DEFAULT_BAR_LENGTH, output);
            proof {
                assert(views(output@) =~= views(out0) + (seq![prompt@, echo_line(trim_seq(
                    e.drop_last(),
                ))] + bar_lines()));
            }
            self.stack.pop();
            proof {
                assert(views(self.stack@) =~= stack0.drop_last());
            }
            self.last_command = Command {
                command: t,
                source: Source::Auto,
                prompt_level: PromptLevel::Show,
            };
            Ok(pos)
        } else {
            let mut remaining: Vec<String> = Vec::new();
            let mut i: usize = n - 1;
            while i > 0
                invariant
                    i <= n - 1,
                    n == self.stack@.len(),
                    remaining@ == self.stack@.subrange(i as int, n - 1).reverse(),
                decreases i,
            {
                i = i - 1;
                let ghost rem0 = remaining@;
                remaining.push(self.stack[i].clone());
                proof {
                    assert(self.stack@.subrange(i as int, n - 1).reverse() =~= rem0.push(
                        self.stack@[i as int],
                    ));
                }
            }
            proof {
                assert(self.stack@.subrange(0, n - 1) =~= self.stack@.drop_last());
                assert(views(remaining@) =~= views(self.stack@).drop_last().reverse());
            }
            Err(
                NavError::Automation {
                    prompt: prompt.to_owned(),
                    command: self.stack[n - 1].clone(),
                    remaining,
                },
            )
        }
    }

    /// Asks a yes-or-no question, as [`confirm_model`] describes: commands
    /// are resolved against `prompt` until a trimmed `y`/`yes` (true),
    /// `n`/`no` (false), or a blank command with a `default` answers; the
    /// comparison ignores ASCII case. Any other command from the scripted
    /// queue is a fatal automation fault, whose diagnostic carries the
    /// offending text and the remaining queue; a live one asks again. On
    /// success the answer and the new feed position are returned.
    pub fn confirm(
        &mut self,
        prompt: &str,
        default: Option<bool>,
        feed: &Vec<String>,
        pos: usize,
        output: &mut Vec<String>,
    ) -> (r: Result<(bool, usize), NavError>)
        requires
            pos <= feed@.len(),
        ensures
            match confirm_model(
                views(old(self).stack@),
                prompt@,
                views(feed@),
                pos as int,
                default,
            ) {
                ConfirmModel::Decided { value, cmd, stack: st2, pos: p2, out } => r matches Ok(
                    (b, q),
                ) && b == value && q as int == p2 && p2 <= feed@.len() && command_is(
                    final(self).last_command,
                    cmd,
                ) && views(final(self).stack@) == st2 && views(final(output)@) == views(
                    old(output)@,
                ) + out,
                ConfirmModel::More { out } => r == Err::<(bool, usize), NavError>(
                    NavError::NeedInput,
                ) && final(self).stack@ == old(self).stack@ && final(self).last_command == old(
                    self,
                ).last_command && views(final(output)@) == views(old(output)@) + out,
                ConfirmModel::Fault { command, remaining, out } => (r matches Err(e)
                    && e matches NavError::Automation { prompt: dp, command: dc, remaining: dq }
                    && dp@ == prompt@ && dc@ == command && views(dq@) == remaining) && views(
                    final(output)@,
                ) == views(old(output)@) + out,
            },
        decreases self.stack@.len() + feed@.len() - pos,
    {
        let ghost stack0 = views(self.stack@);
        let ghost out0 = output@;
        let saved_stack = clone_strings(&self.stack);
        let saved_command = self.last_command.command.clone();
        let saved_source = self.last_command.source;
        let saved_level = self.last_command.prompt_level;
        match self.next_command(prompt, feed, pos, output) {
            Err(e) => Err(e),
            Ok(p) => {
                proof {
                    lemma_resolve_step_consumes(stack0, prompt@, views(feed@), pos as int);
                }
                let tok = trim_str(self.last_command.command.as_str());
                if str_eq_fold(tok, "y") || str_eq_fold(tok, "yes") {
                    Ok((true, p))
                } else if str_eq_fold(tok, "n") || str_eq_fold(tok, "no") {
                    Ok((false, p))
                } else if tok.unicode_len() == 0 && default.is_some() {
                    let d = match default {
                        Some(d) => d,
                        None => false,
                    };
                    Ok((d, p))
                } else if self.last_command.source == Source::Auto {
                    let e = self.error(prompt);
                    proof {
                        assert(views(self.stack@.reverse()) =~= views(self.stack@).reverse());
                    }
                    Err(e)
                } else {
                    let ghost stack1 = views(self.stack@);
                    let ghost out1 = output@;
                    let r = self.confirm(prompt, default, feed, p, output);
                    proof {
                        match resolve_step(stack0, prompt@, views(feed@), pos as int) {
                            Resolution::Got { out: o1, .. } => {
                                match confirm_model(stack1, prompt@, views(feed@), p as int,
                                    default,
                                ) {
                                    ConfirmModel::Decided { out: o2, .. } => {
                                        assert(views(output@) =~= views(out0) + (o1 + o2));
                                    },
                                    ConfirmModel::More { out: o2 } => {
                                        assert(views(output@) =~= views(out0) + (o1 + o2));
                                    },
                                    ConfirmModel::Fault { out: o2, .. } => {
                                        assert(views(output@) =~= views(out0) + (o1 + o2));
                                    },
                                }
                            },
                            _ => {
                                assert(false);
                            },
                        }
                    }
                    match r {
                        Err(NavError::NeedInput) => {
                            self.stack = saved_stack;
                            self.last_command = Command {
                                command: saved_command,
                                source: saved_source,
                                prompt_level: saved_level,
                            };
                            Err(NavError::NeedInput)
                        },
                        other => other,
                    }
                }
            },
        }
    }

    /// Shows `message` as the last resolved command allows: nothing at
    /// `Hide`; the lines behind cursor markers and a separator bar at
    /// `Show`; the lines and a blocking pause at `Pause`. Visibility is a
    /// function of how the triggering input was sourced, never a separate
    /// flag.
    pub fn prompt(&self, message: &str, feed: &Vec<String>, pos: usize, output: &mut Vec<String>)
        -> (r: Result<usize, NavError>)
        requires
            pos <= feed@.len(),
        ensures
            match prompt_scan(
                self.last_command.prompt_level,
                message@,
                views(feed@),
                pos as int,
            ) {
                FeedScan::Done { pos: p, out: o } => r matches Ok(q) && q as int == p && p
                    <= feed@.len() && views(final(output)@) == views(old(output)@) + o,
                FeedScan::More { out: o } => r == Err::<usize, NavError>(NavError::NeedInput)
                    && views(final(output)@) == views(old(output)@) + o,
            },
    {
        let ghost out0 = output@;
        match self.last_command.prompt_level {
            PromptLevel::Hide => {
                proof {
                    assert(views(output@) =~= views(out0) + Seq::<Seq<char>>::empty());
                }
                Ok(pos)
            },
            PromptLevel::Show => {
                let lines = split_lines_str(message);
                push_cued_lines(&lines, output);
                print_bar(DEFAULT_BAR_LENGTH, output);
                proof {
                    assert(views(output@) =~= views(out0) + (cue_lines(split_lines(message@))
                        + bar_lines()));
                }
                Ok(pos)
            },
            PromptLevel::Pause => {
                let lines = split_lines_str(message);
                push_cued_lines(&lines, output);
                let r = pause(DEFAULT_PAUSE_MESSAGE, feed, pos, output);
                proof {
                    match pause_scan(DEFAULT_PAUSE_MESSAGE@, views(feed@), pos as int) {
                        FeedScan::Done { pos: p, out: o } => {
                            assert(views(output@) =~= views(out0) + (cue_lines(
                                split_lines(message@),
                            ) + o));
                        },
                        FeedScan::More { out: o } => {
                            assert(views(output@) =~= views(out0) + (cue_lines(
                                split_lines(message@),
                            ) + o));
                        },
                    }
                }
                r
            },
        }
    }
}

} // verus!
