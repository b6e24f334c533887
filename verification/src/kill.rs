//! `kill`: kill the current session and jump to another.

use crate::config::opt_view;
use crate::protocol::{
    ask_tmux, asking_tmux, done, effect_views, finish, Effect, EffectView, Step, StepView, Waiting,
    WaitingView,
};
use crate::text::{concat2, holds, lines, lines_of, remove_char, same_text, views, without};
use vstd::prelude::*;

verus! {

/// The name in the output of `tmux display-message -p '#S'`: what it prints without the quotes and
/// the line feed.
pub open spec fn current_name(output: Seq<char>) -> Seq<char> {
    without(without(output, '\''), '\n')
}

/// The session to jump to: the default session where it is running and is not the current one,
/// otherwise the first session that is listed, or the second where the first is the current one.
pub open spec fn jump_target(
    current: Seq<char>,
    sessions: Seq<Seq<char>>,
    default: Option<Seq<char>>,
) -> Seq<char> {
    if default is Some && sessions.contains(default->0) && current != default->0 {
        default->0
    } else if current == sessions[0] && sessions.len() > 1 {
        sessions[1]
    } else {
        sessions[0]
    }
}

/// The first step: ask for the current session.
pub open spec fn kill_begin(default: Option<Seq<char>>) -> StepView {
    asking_tmux("tmux display-message -p '#S'"@, WaitingView::KillCurrent { default })
}

/// With the current session known: ask for all of them.
pub open spec fn kill_after_current(default: Option<Seq<char>>, output: Seq<char>) -> StepView {
    asking_tmux(
        "tmux list-sessions -F #S"@,
        WaitingView::KillList { default, current: current_name(output) },
    )
}

/// With the sessions known: jump, and kill the session left behind.
pub open spec fn kill_after_list(
    default: Option<Seq<char>>,
    current: Seq<char>,
    output: Seq<char>,
) -> StepView {
    done(
        seq![
            EffectView::Tmux(
                "tmux switch-client -t "@ + jump_target(current, lines_of(output), default),
            ),
            EffectView::Tmux("tmux kill-session -t "@ + current),
        ],
    )
}

/// The name in the output of `tmux display-message -p '#S'`.
pub fn read_current(output: &str) -> (r: String)
    ensures
        r@ == current_name(output@),
{
    let unquoted = remove_char(output, '\'');
    remove_char(unquoted.as_str(), '\n')
}

/// The session to jump to.
pub fn choose_target(current: &str, sessions: &Vec<String>, default: &Option<String>) -> (r: String)
    requires
        sessions.len() > 0,
    ensures
        r@ == jump_target(current@, views(sessions@), opt_view(*default)),
{
    assert(views(sessions@).len() == sessions@.len());
    match default {
        Some(name) => {
            if holds(sessions, name.as_str()) && !same_text(current, name.as_str()) {
                return name.clone();
            }
        },
        None => {},
    }
    if same_text(current, sessions[0].as_str()) && sessions.len() > 1 {
        sessions[1].clone()
    } else {
        sessions[0].clone()
    }
}

/// The first step of `kill`.
pub fn begin(default: Option<String>) -> (r: Step)
    ensures
        r@ == kill_begin(opt_view(default)),
{
    ask_tmux("tmux display-message -p '#S'", Waiting::KillCurrent { default })
}

/// Goes on when the current session has been printed.
pub fn after_current(default: Option<String>, output: &str) -> (r: Step)
    ensures
        r@ == kill_after_current(opt_view(default), output@),
{
    ask_tmux("tmux list-sessions -F #S", Waiting::KillList { default, current: read_current(output) })
}

/// Goes on when the sessions have been printed.
pub fn after_list(default: Option<String>, current: String, output: &str) -> (r: Step)
    requires
        lines_of(output@).len() > 0,
    ensures
        r@ == kill_after_list(opt_view(default), current@, output@),
{
    let sessions = lines(output);
    assert(views(sessions@).len() == sessions@.len());
    let target = choose_target(current.as_str(), &sessions, &default);
    let mut effects: Vec<Effect> = Vec::new();
    effects.push(Effect::Tmux(concat2("tmux switch-client -t ", target.as_str())));
    effects.push(Effect::Tmux(concat2("tmux kill-session -t ", current.as_str())));
    assert(effect_views(effects@) =~= seq![
        EffectView::Tmux("tmux switch-client -t "@ + target@),
        EffectView::Tmux("tmux kill-session -t "@ + current@),
    ]);
    finish(effects)
}

} // verus!
