//! `sessions`: show the running sessions, with an asterisk on the current one.

use crate::kill::{current_name, read_current};
use crate::protocol::{
    ask_tmux, asking_tmux, done, effect_views, finish, Effect, EffectView, Step, StepView, Waiting,
    WaitingView,
};
use crate::text::{pieces, same_text, split_on, views};
use vstd::prelude::*;

verus! {

/// A session as it is shown: its name, with an asterisk if it is the current one, and a space.
pub open spec fn shown(current: Seq<char>, session: Seq<char>) -> Seq<char> {
    if session == current {
        session + "*"@ + " "@
    } else {
        session + " "@
    }
}

/// The sessions as they are shown, one after the other.
pub open spec fn status_line(current: Seq<char>, sessions: Seq<Seq<char>>) -> Seq<char>
    decreases sessions.len(),
{
    if sessions.len() == 0 {
        Seq::<char>::empty()
    } else {
        status_line(current, sessions.drop_last()) + shown(current, sessions.last())
    }
}

/// The first step: ask for the current session.
pub open spec fn sessions_begin() -> StepView {
    asking_tmux("tmux display-message -p '#S'"@, WaitingView::SessionsCurrent)
}

/// With the current session known: ask for all of them.
pub open spec fn sessions_after_current(output: Seq<char>) -> StepView {
    asking_tmux(
        "tmux list-sessions -F #S"@,
        WaitingView::SessionsList { current: current_name(output) },
    )
}

/// With the sessions known: show them, and after a moment have the status line redrawn.
pub open spec fn sessions_after_list(current: Seq<char>, output: Seq<char>) -> StepView {
    done(
        seq![
            EffectView::Print(status_line(current, pieces(output, '\n'))),
            EffectView::Sleep(100),
            EffectView::Tmux("tmux refresh-client -S"@),
        ],
    )
}

/// The sessions as they are shown.
pub fn show_sessions(current: &str, sessions: &Vec<String>) -> (r: String)
    ensures
        r@ == status_line(current@, views(sessions@)),
{
    let mut out = String::new();
    let mut i: usize = 0;
    while i < sessions.len()
        invariant
            i <= sessions.len(),
            out@ == status_line(current@, views(sessions@).take(i as int)),
        decreases sessions.len() - i,
    {
        assert(views(sessions@).take(i + 1).drop_last() =~= views(sessions@).take(i as int));
        let ghost before = out@;
        let session = sessions[i].as_str();
        out.append(session);
        if same_text(session, current) {
            out.append("*");
        }
        out.append(" ");
        assert(out@ =~= before + shown(current@, session@));
        i += 1;
    }
    assert(views(sessions@).take(i as int) =~= views(sessions@));
    out
}

/// The first step of `sessions`.
pub fn begin() -> (r: Step)
    ensures
        r@ == sessions_begin(),
{
    ask_tmux("tmux display-message -p '#S'", Waiting::SessionsCurrent)
}

/// Goes on when the current session has been printed.
pub fn after_current(output: &str) -> (r: Step)
    ensures
        r@ == sessions_after_current(output@),
{
    ask_tmux("tmux list-sessions -F #S", Waiting::SessionsList { current: read_current(output) })
}

/// Goes on when the sessions have been printed.
pub fn after_list(current: String, output: &str) -> (r: Step)
    ensures
        r@ == sessions_after_list(current@, output@),
{
    let sessions = split_on(output, '\n');
    let line = show_sessions(current.as_str(), &sessions);
    let mut effects: Vec<Effect> = Vec::new();
    effects.push(Effect::Print(line));
    effects.push(Effect::Sleep(100));
    effects.push(Effect::Tmux("tmux refresh-client -S".to_owned()));
    assert(effect_views(effects@) =~= seq![
        EffectView::Print(line@),
        EffectView::Sleep(100),
        EffectView::Tmux("tmux refresh-client -S"@),
    ]);
    finish(effects)
}

} // verus!
