//! The engine's general laws, stated over the resolution and menu models
//! and proved once for all inputs.

use vstd::prelude::*;

use crate::context::CommandModel;
use crate::context::FeedScan;
use crate::context::PromptLevel;
use crate::context::Resolution;
use crate::context::Source;
use crate::context::bar_lines;
use crate::context::echo_line;
use crate::context::lemma_pause_scan_done;
use crate::context::pause_scan;
use crate::context::prompt_scan;
use crate::context::resolve_step;
use crate::menu::MenuModel;
use crate::menu::MenuStep;
use crate::menu::match_idx;
use crate::menu::menu_model;
use crate::text::has_newline;
use crate::text::is_blank;
use crate::text::trim_seq;

verus! {

/// A bare scripted entry (no line feed) replays silently: it resolves to
/// an automated command at level `Hide`, consumes no feed line, prints
/// nothing, and any subsequent prompt under that command produces no
/// output and does not block.
pub proof fn lemma_bare_entry_silent(
    stack: Seq<Seq<char>>,
    prompt: Seq<char>,
    feed: Seq<Seq<char>>,
    pos: int,
    message: Seq<char>,
)
    requires
        stack.len() > 0,
        !has_newline(stack.last()),
    ensures
        resolve_step(stack, prompt, feed, pos) == (Resolution::Got {
            cmd: CommandModel {
                text: stack.last(),
                source: Source::Auto,
                level: PromptLevel::Hide,
            },
            stack: stack.drop_last(),
            pos,
            out: Seq::<Seq<char>>::empty(),
        }),
        prompt_scan(PromptLevel::Hide, message, feed, pos) == (FeedScan::Done {
            pos,
            out: Seq::<Seq<char>>::empty(),
        }),
{
}

/// An entry tagged for display without pause (a second trailing line
/// feed) resolves to an automated command at level `Show`; the prompt and
/// the echoed command are printed exactly once, and no feed line is
/// consumed, so nothing blocks.
pub proof fn lemma_show_entry_prints_once(
    stack: Seq<Seq<char>>,
    prompt: Seq<char>,
    feed: Seq<Seq<char>>,
    pos: int,
)
    requires
        stack.len() > 0,
        has_newline(stack.last()),
        stack.last().last() == '\n',
    ensures
        resolve_step(stack, prompt, feed, pos) == (Resolution::Got {
            cmd: CommandModel {
                text: trim_seq(stack.last().drop_last()),
                source: Source::Auto,
                level: PromptLevel::Show,
            },
            stack: stack.drop_last(),
            pos,
            out: seq![prompt, echo_line(trim_seq(stack.last().drop_last()))] + bar_lines(),
        }),
{
}

/// An entry tagged for display with pause (marker `.`) prints the prompt
/// and the echoed command and blocks until a blank acknowledgement line:
/// with one in the feed, it resolves to an automated command at level
/// `Pause` and stops right after the first blank line; with none, the
/// read blocks.
pub proof fn lemma_pause_entry_blocks(
    stack: Seq<Seq<char>>,
    prompt: Seq<char>,
    feed: Seq<Seq<char>>,
    pos: int,
)
    requires
        stack.len() > 0,
        has_newline(stack.last()),
        stack.last().last() == '.',
        0 <= pos <= feed.len(),
    ensures
        pause_scan("Press [Enter] to continue."@, feed, pos) matches FeedScan::Done {
            pos: p,
            out: o,
        } ==> resolve_step(stack, prompt, feed, pos) == (Resolution::Got {
            cmd: CommandModel {
                text: trim_seq(stack.last().drop_last()),
                source: Source::Auto,
                level: PromptLevel::Pause,
            },
            stack: stack.drop_last(),
            pos: p,
            out: seq![prompt, echo_line(trim_seq(stack.last().drop_last()))] + o,
        }) && pos < p <= feed.len() && is_blank(feed[p - 1]),
        pause_scan("Press [Enter] to continue."@, feed, pos) matches FeedScan::More { .. }
            ==> resolve_step(stack, prompt, feed, pos) is More,
{
    lemma_pause_scan_done("Press [Enter] to continue."@, feed, pos);
}

/// Automation fails fast: when a resolved command is unmatched in a menu
/// — its trimmed text selects no option, is no reserved terminator, and
/// is not the blank that closes a zero-option menu — a scripted command
/// is a fatal fault carrying its own text, while the same command from a
/// live user merely draws a notice and the menu asks again (or waits for
/// more input); it never faults.
pub proof fn lemma_automation_fail_fast(
    looping: bool,
    keys: Seq<Seq<char>>,
    panel: Seq<char>,
    stack: Seq<Seq<char>>,
    feed: Seq<Seq<char>>,
    pos: int,
)
    requires
        resolve_step(stack, panel, feed, pos) matches Resolution::Got { cmd, .. } && match_idx(
            keys,
            trim_seq(cmd.text),
        ) == -1 && trim_seq(cmd.text) != "back"@ && trim_seq(cmd.text) != "break"@ && !(trim_seq(
            cmd.text,
        ).len() == 0 && keys.len() == 0),
    ensures
        resolve_step(stack, panel, feed, pos)->Got_cmd.source == Source::Auto ==> menu_model(
            looping,
            keys,
            panel,
            stack,
            feed,
            pos,
        ) == (MenuModel::Fault {
            command: resolve_step(stack, panel, feed, pos)->Got_cmd.text,
            remaining: resolve_step(stack, panel, feed, pos)->Got_stack.reverse(),
            out: resolve_step(stack, panel, feed, pos)->Got_out,
        }),
        resolve_step(stack, panel, feed, pos)->Got_cmd.source == Source::User ==> !(menu_model(
            looping,
            keys,
            panel,
            stack,
            feed,
            pos,
        ) is Fault),
{
}

/// A one-shot menu never loops: whenever a command matches an option, the
/// step instructs the caller to terminate once the handler has run,
/// whatever the handler does.
pub proof fn lemma_one_shot_menu_terminates(
    keys: Seq<Seq<char>>,
    panel: Seq<char>,
    stack: Seq<Seq<char>>,
    feed: Seq<Seq<char>>,
    pos: int,
)
    ensures
        menu_model(false, keys, panel, stack, feed, pos) matches MenuModel::Step { step, .. } ==> (
        step matches MenuStep::Run { terminate, .. } ==> terminate),
{
}

/// A looping menu keeps asking: after a matched option it terminates
/// exactly when the command was a reserved terminator key.
pub proof fn lemma_looping_menu_continues(
    keys: Seq<Seq<char>>,
    panel: Seq<char>,
    stack: Seq<Seq<char>>,
    feed: Seq<Seq<char>>,
    pos: int,
)
    ensures
        menu_model(true, keys, panel, stack, feed, pos) matches MenuModel::Step { step, .. } ==> (
        step matches MenuStep::Run { terminate, .. } ==> (terminate <==> (trim_seq(
            resolve_step(stack, panel, feed, pos)->Got_cmd.text,
        ) == "back"@ || trim_seq(resolve_step(stack, panel, feed, pos)->Got_cmd.text)
            == "break"@))),
{
}

/// A zero-option menu terminates on a blank command: with no options
/// declared, a resolved command whose trimmed text is empty — from either
/// source — leaves the menu at once, without a match and without running
/// any handler.
pub proof fn lemma_zero_option_menu_exits(
    looping: bool,
    panel: Seq<char>,
    stack: Seq<Seq<char>>,
    feed: Seq<Seq<char>>,
    pos: int,
)
    requires
        resolve_step(stack, panel, feed, pos) matches Resolution::Got { cmd, .. } && trim_seq(
            cmd.text,
        ).len() == 0,
    ensures
        menu_model(looping, Seq::empty(), panel, stack, feed, pos) matches MenuModel::Step {
            step,
            ..
        } && step == MenuStep::Exit,
{
    reveal_strlit("back");
    reveal_strlit("break");
}

} // verus!
