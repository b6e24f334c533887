//! `refresh`: give every worktree of the session's repository a window.

use crate::config::opt_view;
use crate::protocol::{
    ask, ask_tmux, asking, asking_tmux, done, effect_views, fail, failed, finish, name_views, only,
    Effect, EffectView, Next, NextView, Query, QueryView, Step, StepView, TmsError, Waiting,
    WaitingView, Worktree, WorktreeView,
};
use crate::split_window::{read_value, shown_value};
use crate::text::{concat3, holds, lines, lines_of, remove_char, views, without};
use vstd::prelude::*;

verus! {

/// The command that lists the windows of a session.
pub open spec fn list_windows(session: Seq<char>) -> Seq<char> {
    "tmux list-windows -t "@ + session + " -F '#{window_name}'"@
}

/// The names of the windows in a listing.
pub open spec fn window_names(output: Seq<char>) -> Seq<Seq<char>> {
    lines_of(output).map_values(|line: Seq<char>| without(line, '\''))
}

/// Opens a window of `session` in `path`.
pub open spec fn new_window(
    session: Seq<char>,
    path: Seq<char>,
    name: Option<Seq<char>>,
) -> EffectView {
    let args = seq!["new-window"@, "-t"@, session, "-c"@, path] + match name {
        Some(name) => seq!["-n"@, name],
        None => Seq::<Seq<char>>::empty(),
    };
    EffectView::Run("tmux"@, args)
}

/// The names that are valid UTF-8.
pub open spec fn readable(names: Seq<Option<Seq<char>>>) -> Seq<Seq<char>>
    decreases names.len(),
{
    if names.len() == 0 {
        Seq::<Seq<char>>::empty()
    } else {
        let before = readable(names.drop_last());
        match names.last() {
            Some(name) => before.push(name),
            None => before,
        }
    }
}

/// The first step: ask where the current session is.
pub open spec fn refresh_begin(name: Option<Seq<char>>) -> StepView {
    asking_tmux("tmux display-message -p '#{session_path}'"@, WaitingView::RefreshPath { name })
}

/// With the path known: ask for the current session. (Its name is asked for even where one is given.)
pub open spec fn refresh_after_path(name: Option<Seq<char>>, output: Seq<char>) -> StepView {
    asking_tmux(
        "tmux display-message -p '#S'"@,
        WaitingView::RefreshName { name, path: shown_value(output) },
    )
}

/// With the current session known: ask for the windows of the session that is given, or of the
/// current one.
pub open spec fn refresh_after_name(
    name: Option<Seq<char>>,
    path: Seq<char>,
    output: Seq<char>,
) -> StepView {
    let session = shown_value(
        match name {
            Some(name) => name,
            None => output,
        },
    );
    asking_tmux(list_windows(session), WaitingView::RefreshWindows { session, path })
}

/// With the windows known: look for a repository.
pub open spec fn refresh_after_windows(
    session: Seq<char>,
    path: Seq<char>,
    output: Seq<char>,
) -> StepView {
    asking(
        QueryView::OpenRepository(path),
        WaitingView::RefreshOpened { session, path, existing: window_names(output) },
    )
}

/// Without a repository there is nothing to do; with one, ask for its worktrees.
pub open spec fn refresh_after_opened(
    session: Seq<char>,
    path: Seq<char>,
    existing: Seq<Seq<char>>,
    opened: bool,
) -> StepView {
    if opened {
        asking(QueryView::Worktrees, WaitingView::RefreshWorktrees { session, path, existing })
    } else {
        done(Seq::<EffectView>::empty())
    }
}

/// Asks for the worktree `names[at]`, or, where all have been dealt with, whether the repository is
/// bare. So far `count` worktrees have a window.
pub open spec fn refresh_next(
    session: Seq<char>,
    path: Seq<char>,
    existing: Seq<Seq<char>>,
    names: Seq<Seq<char>>,
    at: nat,
    count: nat,
) -> NextView {
    if at < names.len() {
        NextView::Ask(
            QueryView::Worktree(names[at as int]),
            WaitingView::RefreshWorktree { session, path, existing, names, at, count },
        )
    } else {
        NextView::Ask(QueryView::Bare, WaitingView::RefreshBare { session, path, count })
    }
}

/// With the worktrees known: ask for the first.
pub open spec fn refresh_after_worktrees(
    session: Seq<char>,
    path: Seq<char>,
    existing: Seq<Seq<char>>,
    names: Option<Seq<Option<Seq<char>>>>,
) -> StepView {
    let names = match names {
        Some(names) => readable(names),
        None => Seq::<Seq<char>>::empty(),
    };
    StepView {
        effects: Seq::<EffectView>::empty(),
        next: refresh_next(session, path, existing, names, 0, 0),
    }
}

/// With a worktree known: a worktree that has a window already keeps it, one that can be pruned gets
/// none, and any other gets a new one.
pub open spec fn refresh_after_worktree(
    session: Seq<char>,
    path: Seq<char>,
    existing: Seq<Seq<char>>,
    names: Seq<Seq<char>>,
    at: nat,
    count: nat,
    worktree: Option<WorktreeView>,
) -> StepView {
    let name = names[at as int];
    match worktree {
        None => failed(Seq::<EffectView>::empty(), only(TmsError::GitError)),
        Some(worktree) => if existing.contains(name) {
            StepView {
                effects: Seq::<EffectView>::empty(),
                next: refresh_next(session, path, existing, names, at + 1, count + 1),
            }
        } else if worktree.prunable == Some(true) {
            StepView {
                effects: Seq::<EffectView>::empty(),
                next: refresh_next(session, path, existing, names, at + 1, count),
            }
        } else {
            match worktree.path {
                None => failed(Seq::<EffectView>::empty(), only(TmsError::NonUtf8Path)),
                Some(place) => StepView {
                    effects: seq![new_window(session, place, Some(name))],
                    next: refresh_next(session, path, existing, names, at + 1, count + 1),
                },
            }
        },
    }
}

/// A bare repository needs no window of its own; for any other, ask for the windows again.
pub open spec fn refresh_after_bare(
    session: Seq<char>,
    path: Seq<char>,
    count: nat,
    bare: bool,
) -> StepView {
    if bare {
        done(Seq::<EffectView>::empty())
    } else {
        asking_tmux(list_windows(session), WaitingView::RefreshCount { session, path, count })
    }
}

/// Opens a window for the repository itself, unless there is one beside those of the worktrees.
pub open spec fn refresh_after_count(
    session: Seq<char>,
    path: Seq<char>,
    count: nat,
    output: Seq<char>,
) -> StepView {
    if lines_of(output).len() <= count {
        done(seq![new_window(session, path, None)])
    } else {
        done(Seq::<EffectView>::empty())
    }
}

/// The names of the windows in a listing.
pub fn read_windows(output: &str) -> (r: Vec<String>)
    ensures
        views(r@) == window_names(output@),
{
    let rows = lines(output);
    let mut out: Vec<String> = Vec::new();
    let mut i: usize = 0;
    while i < rows.len()
        invariant
            i <= rows.len(),
            views(rows@) == lines_of(output@),
            views(out@) == window_names(output@).take(i as int),
        decreases rows.len() - i,
    {
        let name = remove_char(rows[i].as_str(), '\'');
        assert(lines_of(output@)[i as int] == rows@[i as int]@);
        assert(window_names(output@)[i as int] == name@);
        let ghost before = views(out@);
        out.push(name);
        assert(views(out@) =~= before.push(name@));
        i += 1;
    }
    assert(views(rows@).len() == rows@.len());
    assert(window_names(output@).take(i as int) =~= window_names(output@));
    out
}

/// Opens a window of `session` in `path`.
pub fn create_window(session: &str, path: &str, name: Option<&str>) -> (r: Effect)
    ensures
        r@ == new_window(
            session@,
            path@,
            match name {
                Some(name) => Some(name@),
                None => None,
            },
        ),
{
    let mut args: Vec<String> = Vec::new();
    args.push("new-window".to_owned());
    args.push("-t".to_owned());
    args.push(session.to_owned());
    args.push("-c".to_owned());
    args.push(path.to_owned());
    let ghost first = seq!["new-window"@, "-t"@, session@, "-c"@, path@];
    assert(views(args@) =~= first);
    if let Some(name) = name {
        args.push("-n".to_owned());
        args.push(name.to_owned());
        assert(views(args@) =~= first + seq!["-n"@, name@]);
    } else {
        assert(views(args@) =~= first + Seq::<Seq<char>>::empty());
    }
    Effect::Run("tmux".to_owned(), args)
}

/// The names that are valid UTF-8.
pub fn readable_names(names: Vec<Option<String>>) -> (r: Vec<String>)
    ensures
        views(r@) == readable(name_views(names@)),
{
    let mut out: Vec<String> = Vec::new();
    let mut i: usize = 0;
    assert(views(out@) =~= readable(name_views(names@).take(0)));
    while i < names.len()
        invariant
            i <= names.len(),
            views(out@) == readable(name_views(names@).take(i as int)),
        decreases names.len() - i,
    {
        assert(name_views(names@).take(i + 1).drop_last() =~= name_views(names@).take(i as int));
        assert(name_views(names@).take(i + 1).last() == opt_view(names@[i as int]));
        let ghost before = views(out@);
        if let Some(name) = &names[i] {
            out.push(name.clone());
            assert(views(out@) =~= before.push(name@));
        }
        i += 1;
    }
    assert(name_views(names@).take(i as int) =~= name_views(names@));
    out
}

/// The first step of `refresh`.
pub fn begin(name: Option<String>) -> (r: Step)
    ensures
        r@ == refresh_begin(opt_view(name)),
{
    ask_tmux("tmux display-message -p '#{session_path}'", Waiting::RefreshPath { name })
}

/// Goes on when the session's path has been printed.
pub fn after_path(name: Option<String>, output: &str) -> (r: Step)
    ensures
        r@ == refresh_after_path(opt_view(name), output@),
{
    ask_tmux(
        "tmux display-message -p '#S'",
        Waiting::RefreshName { name, path: read_value(output) },
    )
}

/// Goes on when the current session has been printed.
pub fn after_name(name: Option<String>, path: String, output: &str) -> (r: Step)
    ensures
        r@ == refresh_after_name(opt_view(name), path@, output@),
{
    let session = match &name {
        Some(name) => read_value(name.as_str()),
        None => read_value(output),
    };
    let command = concat3("tmux list-windows -t ", session.as_str(), " -F '#{window_name}'");
    ask_tmux(command.as_str(), Waiting::RefreshWindows { session, path })
}

/// Goes on when the windows have been printed.
pub fn after_windows(session: String, path: String, output: &str) -> (r: Step)
    ensures
        r@ == refresh_after_windows(session@, path@, output@),
{
    let existing = read_windows(output);
    ask(
        Query::OpenRepository(path.clone()),
        Waiting::RefreshOpened { session, path, existing },
    )
}

/// Goes on when it is known whether there is a repository.
pub fn after_opened(session: String, path: String, existing: Vec<String>, opened: bool) -> (r: Step)
    ensures
        r@ == refresh_after_opened(session@, path@, views(existing@), opened),
{
    if opened {
        ask(Query::Worktrees, Waiting::RefreshWorktrees { session, path, existing })
    } else {
        let effects: Vec<Effect> = Vec::new();
        assert(effect_views(effects@) =~= Seq::<EffectView>::empty());
        finish(effects)
    }
}

/// Asks for the worktree `names[at]`, or whether the repository is bare.
fn next(
    session: String,
    path: String,
    existing: Vec<String>,
    names: Vec<String>,
    at: usize,
    count: usize,
) -> (r: Next)
    ensures
        r@ == refresh_next(
            session@,
            path@,
            views(existing@),
            views(names@),
            at as nat,
            count as nat,
        ),
{
    assert(views(names@).len() == names@.len());
    if at < names.len() {
        Next::Ask(
            Query::Worktree(names[at].clone()),
            Waiting::RefreshWorktree { session, path, existing, names, at, count },
        )
    } else {
        Next::Ask(Query::Bare, Waiting::RefreshBare { session, path, count })
    }
}

/// Goes on when the worktrees have been listed.
pub fn after_worktrees(
    session: String,
    path: String,
    existing: Vec<String>,
    names: Option<Vec<Option<String>>>,
) -> (r: Step)
    ensures
        r@ == refresh_after_worktrees(
            session@,
            path@,
            views(existing@),
            match names {
                Some(names) => Some(name_views(names@)),
                None => None,
            },
        ),
{
    let known: Vec<String> = match names {
        Some(names) => readable_names(names),
        None => {
            let none: Vec<String> = Vec::new();
            assert(views(none@) =~= Seq::<Seq<char>>::empty());
            none
        },
    };
    let effects: Vec<Effect> = Vec::new();
    assert(effect_views(effects@) =~= Seq::<EffectView>::empty());
    Step { effects, next: next(session, path, existing, known, 0, 0) }
}

/// Goes on when the worktree `names[at]` is known.
pub fn after_worktree(
    session: String,
    path: String,
    existing: Vec<String>,
    names: Vec<String>,
    at: usize,
    count: usize,
    worktree: Option<Worktree>,
) -> (r: Step)
    requires
        at < names.len(),
        count <= at,
    ensures
        r@ == refresh_after_worktree(
            session@,
            path@,
            views(existing@),
            views(names@),
            at as nat,
            count as nat,
            match worktree {
                Some(worktree) => Some(worktree@),
                None => None,
            },
        ),
{
    let mut effects: Vec<Effect> = Vec::new();
    assert(effect_views(effects@) =~= Seq::<EffectView>::empty());
    assert(views(names@)[at as int] == names@[at as int]@);
    match worktree {
        None => fail(TmsError::GitError),
        Some(worktree) => {
            if holds(&existing, names[at].as_str()) {
                return Step { effects, next: next(session, path, existing, names, at + 1, count + 1) };
            }
            let prunable = match worktree.prunable {
                Some(prunable) => prunable,
                None => false,
            };
            if prunable {
                return Step { effects, next: next(session, path, existing, names, at + 1, count) };
            }
            match worktree.path {
                None => fail(TmsError::NonUtf8Path),
                Some(place) => {
                    effects.push(
                        create_window(session.as_str(), place.as_str(), Some(names[at].as_str())),
                    );
                    assert(effect_views(effects@) =~= seq![
                        new_window(session@, place@, Some(views(names@)[at as int])),
                    ]);
                    Step { effects, next: next(session, path, existing, names, at + 1, count + 1) }
                },
            }
        },
    }
}

/// Goes on when it is known whether the repository is bare.
pub fn after_bare(session: String, path: String, count: usize, bare: bool) -> (r: Step)
    ensures
        r@ == refresh_after_bare(session@, path@, count as nat, bare),
{
    if bare {
        let effects: Vec<Effect> = Vec::new();
        assert(effect_views(effects@) =~= Seq::<EffectView>::empty());
        finish(effects)
    } else {
        let command = concat3("tmux list-windows -t ", session.as_str(), " -F '#{window_name}'");
        ask_tmux(command.as_str(), Waiting::RefreshCount { session, path, count })
    }
}

/// Goes on when the windows have been printed again.
pub fn after_count(session: String, path: String, count: usize, output: &str) -> (r: Step)
    ensures
        r@ == refresh_after_count(session@, path@, count as nat, output@),
{
    let rows = lines(output);
    assert(views(rows@).len() == rows@.len());
    let mut effects: Vec<Effect> = Vec::new();
    assert(effect_views(effects@) =~= Seq::<EffectView>::empty());
    if rows.len() <= count {
        effects.push(create_window(session.as_str(), path.as_str(), None));
        assert(effect_views(effects@) =~= seq![new_window(session@, path@, None)]);
    }
    finish(effects)
}

} // verus!
