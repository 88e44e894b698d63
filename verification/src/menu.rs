//! The menu engine: option declarations and the option-traversal state
//! machine driven by resolved commands.
//!
//! One menu invocation is a loop that the caller drives: each call of
//! [`menu_step`] resolves one command against the displayed panel and
//! says what to do next — run the handler of a matched option (and
//! whether to terminate afterwards), ask again after a corrective notice,
//! or terminate. Handlers stay with the caller: they may push scripted
//! entries, open nested menus, or call the prompt gate, so the engine
//! hands control back instead of calling into them.

use vstd::prelude::*;

use crate::context::Command;
use crate::context::CommandModel;
use crate::context::FeedScan;
use crate::context::NavContext;
use crate::context::NavError;
use crate::context::Resolution;
use crate::context::Source;
use crate::context::command_is;
use crate::context::cue_line;
use crate::context::cue_lines;
use crate::context::lemma_resolve_step_consumes;
use crate::context::prompt_scan;
use crate::context::resolve_step;
use crate::text::clone_strings;
use crate::text::split_lines;
use crate::text::split_lines_str;
use crate::text::str_eq;
use crate::text::trim_seq;
use crate::text::trim_str;
use crate::text::views;

verus! {

/// Heading shown above the formatted option list of a menu panel.
pub const DEFAULT_OPTION_HEADER: &'static str = "   -- [ Options ] --";

/// One declared option: the literal token that selects it, an optional
/// description for the panel, and — with the caller — a handler to run.
#[derive(Debug)]
pub struct OptionDecl {
    pub key: String,
    pub description: Option<String>,
}

/// A menu declaration: the question asked, whether the menu repeats after
/// a handled option (`nav` style) or runs once (`pick` style), and the
/// ordered options.
#[derive(Debug)]
pub struct MenuDecl {
    pub prompt: String,
    pub looping: bool,
    pub options: Vec<OptionDecl>,
}

/// What the caller must do after one step of the menu loop: run the
/// handler of option `index` (and terminate afterwards when `terminate`
/// is set), ask again (`Stay`, after a corrective notice to a live user),
/// or leave the menu without running a handler (`Exit`).
#[derive(Debug, Clone, Copy, PartialEq, Eq, Structural)]
pub enum MenuStep {
    Run { index: usize, terminate: bool },
    Stay,
    Exit,
}

/// The key tokens of a sequence of declared options.
pub open spec fn key_views(options: Seq<OptionDecl>) -> Seq<Seq<char>> {
    options.map_values(|o: OptionDecl| o.key@)
}

/// The first index of `t` among `keys`, or `-1`: options are matched in
/// declaration order, verbatim and case-sensitively.
pub open spec fn match_idx(keys: Seq<Seq<char>>, t: Seq<char>) -> int
    decreases keys.len(),
{
    if keys.len() == 0 {
        -1
    } else if keys[0] == t {
        0
    } else {
        let r = match_idx(keys.drop_first(), t);
        if r < 0 {
            -1
        } else {
            r + 1
        }
    }
}

/// A found match lies within the keys and is the first one.
pub proof fn lemma_match_idx_bounds(keys: Seq<Seq<char>>, t: Seq<char>)
    ensures
        match_idx(keys, t) >= 0 ==> 0 <= match_idx(keys, t) < keys.len() && keys[match_idx(
            keys,
            t,
        )] == t,
        match_idx(keys, t) < 0 ==> forall|j: int| 0 <= j < keys.len() ==> keys[j] != t,
    decreases keys.len(),
{
    if keys.len() > 0 && keys[0] != t {
        lemma_match_idx_bounds(keys.drop_first(), t);
        if match_idx(keys, t) < 0 {
            assert forall|j: int| 0 <= j < keys.len() implies keys[j] != t by {
                if j > 0 {
                    assert(keys.drop_first()[j - 1] == keys[j]);
                }
            }
        } else {
            assert(keys.drop_first()[match_idx(keys, t) - 1] == keys[match_idx(keys, t)]);
        }
    }
}

/// When every key before `i` differs from `t`, the match, if any, lies at
/// `i` or beyond.
proof fn lemma_match_idx_from(keys: Seq<Seq<char>>, t: Seq<char>, i: int)
    requires
        0 <= i <= keys.len(),
        forall|j: int| 0 <= j < i ==> keys[j] != t,
    ensures
        i < keys.len() && keys[i] == t ==> match_idx(keys, t) == i,
        i == keys.len() ==> match_idx(keys, t) == -1,
    decreases i,
{
    if i == 0 {
        if keys.len() > 0 && keys[0] == t {
        } else if keys.len() == 0 {
        } else {
            lemma_match_idx_bounds(keys, t);
        }
    } else {
        assert(keys[0] != t);
        lemma_match_idx_from(keys.drop_first(), t, i - 1);
    }
}

/// Finds the first option whose key is exactly `text`, in declaration
/// order.
pub fn match_option(options: &Vec<OptionDecl>, text: &str) -> (r: Option<usize>)
    ensures
        match r {
            Some(k) => match_idx(key_views(options@), text@) == k as int,
            None => match_idx(key_views(options@), text@) == -1,
        },
{
    let n = options.len();
    let mut i: usize = 0;
    while i < n
        invariant
            n == options@.len(),
            i <= n,
            forall|j: int| 0 <= j < i ==> key_views(options@)[j] != text@,
        decreases n - i,
    {
        if str_eq(options[i].key.as_str(), text) {
            proof {
                lemma_match_idx_from(key_views(options@), text@, i as int);
            }
            return Some(i);
        }
        i = i + 1;
    }
    proof {
        lemma_match_idx_from(key_views(options@), text@, n as int);
    }
    None
}

/// The panel row of one option: its key in brackets, then the description
/// when there is one.
pub open spec fn option_line(o: OptionDecl) -> Seq<char> {
    match o.description {
        Some(d) => "["@ + o.key@ + "]: "@ + d@,
        None => "["@ + o.key@ + "]"@,
    }
}

/// Rows joined by single line feeds, with no trailing one.
pub open spec fn join_lines(ls: Seq<Seq<char>>) -> Seq<char>
    decreases ls.len(),
{
    if ls.len() == 0 {
        Seq::empty()
    } else if ls.len() == 1 {
        ls[0]
    } else {
        ls[0] + "\n"@ + join_lines(ls.drop_first())
    }
}

/// Appending a row extends the joined text by a line feed and the row.
proof fn lemma_join_lines_push(ls: Seq<Seq<char>>, x: Seq<char>)
    ensures
        ls.len() == 0 ==> join_lines(ls.push(x)) == x,
        ls.len() > 0 ==> join_lines(ls.push(x)) == join_lines(ls) + "\n"@ + x,
    decreases ls.len(),
{
    if ls.len() == 0 {
        assert(ls.push(x)[0] == x);
    } else {
        assert(ls.push(x)[0] == ls[0]);
        assert(ls.push(x).drop_first() =~= ls.drop_first().push(x));
        lemma_join_lines_push(ls.drop_first(), x);
        if ls.len() == 1 {
            assert(join_lines(ls) == ls[0]);
        }
    }
}

/// The panel a menu displays: the prompt lines behind cursor markers,
/// joined by line feeds, and — when options are declared — the option
/// header and one row per option.
pub open spec fn panel_text(prompt: Seq<char>, options: Seq<OptionDecl>) -> Seq<char> {
    let head = join_lines(cue_lines(split_lines(prompt)));
    if options.len() == 0 {
        head
    } else {
        head + "\n"@ + DEFAULT_OPTION_HEADER@ + "\n"@ + join_lines(
            options.map_values(|o: OptionDecl| option_line(o)),
        )
    }
}

/// Builds the panel of [`panel_text`] for a menu. The caller shows it by
/// passing it to [`menu_step`] as the displayed prompt; a menu whose
/// prompt is computed anew each round rebuilds the panel each round.
pub fn format_panel(menu: &MenuDecl) -> (r: String)
    ensures
        r@ == panel_text(menu.prompt@, menu.options@),
{
    let lines = split_lines_str(menu.prompt.as_str());
    let mut r = String::new();
    let n = lines.len();
    let mut i: usize = 0;
    proof {
        assert(views(lines@).take(0) =~= Seq::<Seq<char>>::empty());
        assert(cue_lines(Seq::<Seq<char>>::empty()) =~= Seq::<Seq<char>>::empty());
    }
    while i < n
        invariant
            n == lines@.len(),
            i <= n,
            r@ == join_lines(cue_lines(views(lines@).take(i as int))),
        decreases n - i,
    {
        proof {
            let cued = cue_lines(views(lines@).take(i as int));
            lemma_join_lines_push(cued, cue_line(views(lines@)[i as int]));
            assert(cue_lines(views(lines@).take(i + 1)) =~= cued.push(
                cue_line(views(lines@)[i as int]),
            ));
        }
        if i > 0 {
            r.append("\n");
        }
        r.append("> ");
        r.append(lines[i].as_str());
        i = i + 1;
    }
    proof {
        assert(views(lines@).take(n as int) =~= views(lines@));
    }
    let m = menu.options.len();
    if m == 0 {
        return r;
    }
    r.append("\n");
    r.append(DEFAULT_OPTION_HEADER);
    let mut j: usize = 0;
    let ghost rows = menu.options@.map_values(|o: OptionDecl| option_line(o));
    let ghost head = join_lines(cue_lines(split_lines(menu.prompt@)));
    while j < m
        invariant
            m == menu.options@.len(),
            m > 0,
            j <= m,
            rows == menu.options@.map_values(|o: OptionDecl| option_line(o)),
            r@ == head + "\n"@ + DEFAULT_OPTION_HEADER@ + (if j == 0 {
                Seq::<char>::empty()
            } else {
                "\n"@ + join_lines(rows.take(j as int))
            }),
        decreases m - j,
    {
        proof {
            lemma_join_lines_push(rows.take(j as int), rows[j as int]);
            assert(rows.take(j + 1) =~= rows.take(j as int).push(rows[j as int]));
        }
        r.append("\n");
        match &menu.options[j].description {
            Some(d) => {
                r.append("[");
                r.append(menu.options[j].key.as_str());
                r.append("]: ");
                r.append(d.as_str());
            },
            None => {
                r.append("[");
                r.append(menu.options[j].key.as_str());
                r.append("]");
            },
        }
        proof {
            assert(r@ =~= head + "\n"@ + DEFAULT_OPTION_HEADER@ + ("\n"@ + join_lines(
                rows.take(j + 1),
            )));
        }
        j = j + 1;
    }
    proof {
        assert(rows.take(m as int) =~= rows);
        assert(r@ =~= panel_text(menu.prompt@, menu.options@));
    }
    r
}

/// How one step of the menu loop ends: an instruction for the caller with
/// the state left behind, a dry feed, or a fatal automation fault with
/// its diagnostic content.
pub enum MenuModel {
    Step { step: MenuStep, cmd: CommandModel, stack: Seq<Seq<char>>, pos: int, out: Seq<Seq<char>> },
    More { out: Seq<Seq<char>> },
    Fault { command: Seq<char>, remaining: Seq<Seq<char>>, out: Seq<Seq<char>> },
}

/// One step of the menu loop: a command is resolved against the panel and
/// its trimmed text is matched against the keys in order.
///
/// A match runs that option's handler; the menu then terminates when it
/// is one-shot or the key is a reserved terminator (`back` or `break`).
/// An unmatched `back` or `break` terminates without a handler, as does a
/// blank command when no options are declared. Any other unmatched
/// command is a fatal automation fault when scripted; from a live user it
/// draws a corrective notice through the prompt gate and the menu asks
/// again.
pub open spec fn menu_model(
    looping: bool,
    keys: Seq<Seq<char>>,
    panel: Seq<char>,
    stack: Seq<Seq<char>>,
    feed: Seq<Seq<char>>,
    pos: int,
) -> MenuModel {
    match resolve_step(stack, panel, feed, pos) {
        Resolution::More { out } => MenuModel::More { out },
        Resolution::Bad { entry } => MenuModel::Fault {
            command: entry,
            remaining: stack.drop_last().reverse(),
            out: Seq::empty(),
        },
        Resolution::Got { cmd, stack: st2, pos: p2, out } => {
            let t = trim_seq(cmd.text);
            let k = match_idx(keys, t);
            if k >= 0 {
                MenuModel::Step {
                    step: MenuStep::Run {
                        index: k as usize,
                        terminate: !looping || t == "back"@ || t == "break"@,
                    },
                    cmd,
                    stack: st2,
                    pos: p2,
                    out,
                }
            } else if t == "back"@ || t == "break"@ {
                MenuModel::Step { step: MenuStep::Exit, cmd, stack: st2, pos: p2, out }
            } else if t.len() == 0 && keys.len() == 0 {
                MenuModel::Step { step: MenuStep::Exit, cmd, stack: st2, pos: p2, out }
            } else if cmd.source == Source::Auto {
                MenuModel::Fault { command: cmd.text, remaining: st2.reverse(), out }
            } else {
                let notice: Seq<char> = if t.len() == 0 {
                    "Please choose an option."@
                } else {
                    "Unrecognized command."@
                };
                match prompt_scan(cmd.level, notice, feed, p2) {
                    FeedScan::Done { pos: p3, out: o2 } => MenuModel::Step {
                        step: MenuStep::Stay,
                        cmd,
                        stack: st2,
                        pos: p3,
                        out: out + o2,
                    },
                    FeedScan::More { out: o2 } => MenuModel::More { out: out + o2 },
                }
            }
        },
    }
}

/// Performs one step of the menu loop, as [`menu_model`] describes: the
/// next command is resolved against the displayed `panel`, and the caller
/// learns whether to run a handler, ask again, or leave the menu. On
/// [`NavError::NeedInput`] the context is unchanged and the output holds
/// the lines shown before the blocking read.
pub fn menu_step(
    menu: &MenuDecl,
    panel: &str,
    ctx: &mut NavContext,
    feed: &Vec<String>,
    pos: usize,
    output: &mut Vec<String>,
) -> (r: Result<(MenuStep, usize), NavError>)
    requires
        pos <= feed@.len(),
    ensures
        match menu_model(
            menu.looping,
            key_views(menu.options@),
            panel@,
            views(old(ctx).stack@),
            views(feed@),
            pos as int,
        ) {
            MenuModel::Step { step, cmd, stack: st2, pos: p2, out } => r matches Ok((s, q)) && s
                == step && q as int == p2 && p2 <= feed@.len() && command_is(
                final(ctx).last_command,
                cmd,
            ) && views(final(ctx).stack@) == st2 && views(final(output)@) == views(old(output)@)
                + out,
            MenuModel::More { out } => r == Err::<(MenuStep, usize), NavError>(NavError::NeedInput)
                && final(ctx).stack@ == old(ctx).stack@ && final(ctx).last_command == old(
                ctx,
            ).last_command && views(final(output)@) == views(old(output)@) + out,
            MenuModel::Fault { command, remaining, out } => (r matches Err(e)
                && e matches NavError::Automation { prompt: dp, command: dc, remaining: dq } && dp@
                == panel@ && dc@ == command && views(dq@) == remaining) && views(final(output)@)
                == views(old(output)@) + out,
        },
{
    let ghost stack0 = views(ctx.stack@);
    let ghost out0 = output@;
    let saved_stack = clone_strings(&ctx.stack);
    let saved_command = ctx.last_command.command.clone();
    let saved_source = ctx.last_command.source;
    let saved_level = ctx.last_command.prompt_level;
    match ctx.next_command(panel, feed, pos, output) {
        Err(e) => Err(e),
        Ok(p) => {
            proof {
                lemma_resolve_step_consumes(stack0, panel@, views(feed@), pos as int);
            }
            let t = trim_str(ctx.last_command.command.as_str());
            match match_option(&menu.options, t) {
                Some(k) => {
                    let terminate = !menu.looping || str_eq(t, "back") || str_eq(t, "break");
                    Ok((MenuStep::Run { index: k, terminate }, p))
                },
                None => {
                    if str_eq(t, "back") || str_eq(t, "break") {
                        Ok((MenuStep::Exit, p))
                    } else if t.unicode_len() == 0 && menu.options.len() == 0 {
                        Ok((MenuStep::Exit, p))
                    } else if ctx.last_command.source == Source::Auto {
                        let e = ctx.error(panel);
                        proof {
                            assert(views(ctx.stack@.reverse()) =~= views(ctx.stack@).reverse());
                        }
                        Err(e)
                    } else {
                        let notice: &str = if t.unicode_len() == 0 {
                            "Please choose an option."
                        } else {
                            "Unrecognized command."
                        };
                        let step = ctx.prompt(notice, feed, p, output);
                        proof {
                            match resolve_step(stack0, panel@, views(feed@), pos as int) {
                                Resolution::Got { cmd, out: o1, .. } => {
                                    match prompt_scan(cmd.level, notice@, views(feed@), p as int) {
                                        FeedScan::Done { out: o2, .. } => {
                                            assert(views(output@) =~= views(out0) + (o1 + o2));
                                        },
                                        FeedScan::More { out: o2 } => {
                                            assert(views(output@) =~= views(out0) + (o1 + o2));
                                        },
                                    }
                                },
                                _ => {
                                    assert(false);
                                },
                            }
                        }
                        match step {
                            Ok(p3) => Ok((MenuStep::Stay, p3)),
                            Err(e) => {
                                ctx.stack = saved_stack;
                                ctx.last_command = Command {
                                    command: saved_command,
                                    source: saved_source,
                                    prompt_level: saved_level,
                                };
                                Err(e)
                            },
                        }
                    }
                },
            }
        },
    }
}

} // verus!
