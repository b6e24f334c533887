//! Laws of `start`.

use crate::config::{ConfigView, SessionView, WindowView};
use crate::expansion::{EnvironmentView, MissingView};
use crate::expansion_laws::{clear, law_clear_paths, law_plain_paths, standard_expansion};
use crate::handle::begins;
use crate::protocol::{
    done, failed, not_found, EffectView, NextView, StepView, SubCommandGivenView, TmsError,
};
use crate::request::RequestView;
use crate::start::{
    and_next, open_plan, path_expands, session_expands, session_plan, sessions_expand,
    sessions_plan, start_step, window_expands, window_plan, windows_plan, ExpandedSessionView,
    ExpandedView, ExpandedWindowView, Plan,
};
use vstd::prelude::*;

verus! {

/// Where a path is given, it becomes the same by every reading.
pub open spec fn settled(path: Option<Seq<char>>, environment: EnvironmentView) -> bool {
    path matches Some(path) ==> clear(path, environment)
}

/// `holds` is true of the path of the session and of those of its windows.
pub open spec fn of_all_paths(
    session: SessionView,
    holds: spec_fn(Option<Seq<char>>) -> bool,
) -> bool {
    &&& holds(session.path)
    &&& session.windows matches Some(windows) ==> forall|i: int|
        0 <= i < windows.len() ==> holds((#[trigger] windows[i]).path)
}

/// What the path becomes in `environment`.
pub open spec fn path_in(path: Option<Seq<char>>, environment: EnvironmentView) -> ExpandedView {
    match path {
        Some(path) => match standard_expansion(path, environment) {
            Ok(expanded) => ExpandedView::Path(expanded),
            Err(missing) => ExpandedView::Failed(missing),
        },
        None => ExpandedView::NoPath,
    }
}

/// The window with its path expanded in `environment`.
pub open spec fn window_in(window: WindowView, environment: EnvironmentView) -> ExpandedWindowView {
    ExpandedWindowView {
        name: window.name,
        path: path_in(window.path, environment),
        command: window.command,
    }
}

/// The session with its paths expanded in `environment`.
pub open spec fn session_in(
    session: SessionView,
    environment: EnvironmentView,
) -> ExpandedSessionView {
    ExpandedSessionView {
        name: session.name,
        path: path_in(session.path, environment),
        windows: match session.windows {
            Some(windows) => Some(windows.map_values(|w: WindowView| window_in(w, environment))),
            None => None,
        },
    }
}

/// Without default sessions, `start` starts `tmux` and does nothing else.
pub proof fn law_start_without_sessions(
    config: ConfigView,
    environment: EnvironmentView,
    step: StepView,
)
    requires
        config.sessions is None,
        begins(RequestView::Start, config, environment, step),
    ensures
        step == done(seq![EffectView::Tmux("tmux"@)]),
{
}

/// The first step of `start` is the one with every path as the environment has it. The environment
/// is the same for all paths, and so each variable has one value throughout.
pub proof fn law_start_in_environment(
    config: ConfigView,
    environment: EnvironmentView,
    sessions: Seq<SessionView>,
    step: StepView,
)
    requires
        config.sessions == Some(sessions),
        begins(RequestView::Start, config, environment, step),
        forall|i: int|
            0 <= i < sessions.len() ==> of_all_paths(
                #[trigger] sessions[i],
                |path: Option<Seq<char>>| settled(path, environment),
            ),
    ensures
        step == start_step(Some(sessions.map_values(|s: SessionView| session_in(s, environment)))),
{
    let expanded = choose|expanded: Option<Seq<ExpandedSessionView>>|
        sessions_expand(config.sessions, environment, expanded) && step == #[trigger] start_step(
            expanded,
        );
    let known = sessions.map_values(|s: SessionView| session_in(s, environment));
    assert forall|i: int| 0 <= i < sessions.len() implies #[trigger] expanded->0[i] == known[i] by {
        let session = sessions[i];
        let after = expanded->0[i];
        assert(session_expands(session, environment, after));
        lemma_path_in(session.path, environment, after.path);
        if let Some(windows) = session.windows {
            let later = after.windows->0;
            assert forall|j: int| 0 <= j < windows.len() implies #[trigger] later[j] == window_in(
                windows[j],
                environment,
            ) by {
                assert(window_expands(windows[j], environment, later[j]));
                assert(settled(windows[j].path, environment));
                lemma_path_in(windows[j].path, environment, later[j].path);
            }
            assert(later =~= windows.map_values(|w: WindowView| window_in(w, environment)));
        }
    }
    assert(expanded->0 =~= known);
}

/// A settled path has one expansion.
proof fn lemma_path_in(
    path: Option<Seq<char>>,
    environment: EnvironmentView,
    expanded: ExpandedView,
)
    requires
        settled(path, environment),
        path_expands(path, environment, expanded),
    ensures
        expanded == path_in(path, environment),
{
    if let Some(path) = path {
        match expanded {
            ExpandedView::NoPath => {},
            ExpandedView::Path(text) => {
                law_clear_paths(path, environment, Ok(text));
            },
            ExpandedView::Failed(missing) => {
                law_clear_paths(path, environment, Err(missing));
            },
        }
    }
}

/// The path holds no dollar and does not start with a tilde.
pub open spec fn plain(path: Option<Seq<char>>) -> bool {
    path matches Some(path) ==> !path.contains('$') && (path.len() > 0 ==> path[0] != '~')
}

/// A plain path is settled, and is used as it is, in every environment.
pub proof fn law_plain_is_settled(path: Option<Seq<char>>, environment: EnvironmentView)
    requires
        plain(path),
    ensures
        settled(path, environment),
        path_in(path, environment) == match path {
            Some(path) => ExpandedView::Path(path),
            None => ExpandedView::NoPath,
        },
{
    if let Some(path) = path {
        law_plain_paths(path, environment);
    }
}

/// Every path of the session could be expanded.
pub open spec fn none_failed(session: ExpandedSessionView) -> bool {
    &&& !(session.path is Failed)
    &&& session.windows matches Some(windows) ==> forall|i: int|
        0 <= i < windows.len() ==> !((#[trigger] windows[i]).path is Failed)
}

/// Windows open if and only if their paths could be expanded.
proof fn lemma_windows_ok(windows: Seq<ExpandedWindowView>)
    ensures
        windows_plan(windows).missing is None <==> forall|i: int|
            0 <= i < windows.len() ==> !((#[trigger] windows[i]).path is Failed),
    decreases windows.len(),
{
    if windows.len() > 0 {
        let rest = windows.drop_last();
        lemma_windows_ok(rest);
        assert(windows[windows.len() - 1] == windows.last());
        assert(forall|i: int| 0 <= i < rest.len() ==> #[trigger] rest[i] == windows[i]);
        if windows_plan(windows).missing is None {
            assert forall|i: int| 0 <= i < windows.len() implies !((#[trigger] windows[i]).path
                is Failed) by {
                if i < rest.len() {
                    assert(!(rest[i].path is Failed));
                }
            }
        }
    }
}

/// Sessions start if and only if their paths could be expanded.
proof fn lemma_sessions_ok(sessions: Seq<ExpandedSessionView>)
    ensures
        sessions_plan(sessions).missing is None <==> forall|i: int|
            0 <= i < sessions.len() ==> none_failed(#[trigger] sessions[i]),
    decreases sessions.len(),
{
    if sessions.len() > 0 {
        let rest = sessions.drop_last();
        lemma_sessions_ok(rest);
        assert(sessions[sessions.len() - 1] == sessions.last());
        assert(forall|i: int| 0 <= i < rest.len() ==> #[trigger] rest[i] == sessions[i]);
        if let Some(windows) = sessions.last().windows {
            lemma_windows_ok(windows);
        }
        assert(session_plan(sessions.last()).missing is None <==> none_failed(sessions.last()));
        if sessions_plan(sessions).missing is None {
            assert forall|i: int| 0 <= i < sessions.len() implies none_failed(
                #[trigger] sessions[i],
            ) by {
                if i < rest.len() {
                    assert(none_failed(rest[i]));
                }
            }
        }
    }
}

/// `start` succeeds if and only if every path could be expanded, and otherwise fails with an I/O error
/// that names the variable that is missing.
pub proof fn law_start_succeeds(sessions: Seq<ExpandedSessionView>)
    ensures
        sessions_plan(sessions).missing is None <==> forall|i: int|
            0 <= i < sessions.len() ==> none_failed(#[trigger] sessions[i]),
        start_step(Some(sessions)).next == match sessions_plan(sessions).missing {
            None => NextView::Finish(Ok(SubCommandGivenView::Yes)),
            Some(missing) => NextView::Finish(Err(not_found(missing))),
        },
{
    lemma_sessions_ok(sessions);
}

/// Sessions are started in order, each after all that belongs to the one before.
pub proof fn law_sessions_start_in_order(
    first: Seq<ExpandedSessionView>,
    second: Seq<ExpandedSessionView>,
)
    ensures
        sessions_plan(first + second) == and_next(sessions_plan(first), sessions_plan(second)),
    decreases second.len(),
{
    let all = first + second;
    if second.len() == 0 {
        assert(all =~= first);
        assert(sessions_plan(all).effects =~= and_next(
            sessions_plan(first),
            sessions_plan(second),
        ).effects);
    } else {
        law_sessions_start_in_order(first, second.drop_last());
        assert(all.drop_last() =~= first + second.drop_last());
        assert(all.last() == second.last());
        assert(sessions_plan(all).effects =~= and_next(
            sessions_plan(first),
            sessions_plan(second),
        ).effects);
    }
}

/// Where a path of a session cannot be expanded, the sessions before it have been started, the run
/// ends with an error, and the sessions after it do not matter.
pub proof fn law_start_stops_at_failure(
    before: Seq<ExpandedSessionView>,
    bad: ExpandedSessionView,
    after: Seq<ExpandedSessionView>,
)
    requires
        sessions_plan(before).missing is None,
        session_plan(bad).missing is Some,
    ensures
        start_step(Some(before.push(bad) + after)) == failed(
            sessions_plan(before).effects + session_plan(bad).effects,
            not_found(session_plan(bad).missing->0),
        ),
{
    law_sessions_start_in_order(before.push(bad), after);
    assert(before.push(bad).drop_last() =~= before);
}

/// `base` with a name behind `flag`, where there is one, and a path behind `-c`, where there is one.
pub open spec fn with_options(
    base: Seq<char>,
    flag: Seq<char>,
    name: Option<Seq<char>>,
    path: Option<Seq<char>>,
) -> Seq<char> {
    match (name, path) {
        (Some(name), Some(path)) => base + (flag + name) + (" -c "@ + path),
        (Some(name), None) => base + (flag + name),
        (None, Some(path)) => base + (" -c "@ + path),
        (None, None) => base,
    }
}

/// The path as it was expanded.
pub open spec fn expanded_to(path: Option<Seq<char>>) -> ExpandedView {
    match path {
        Some(path) => ExpandedView::Path(path),
        None => ExpandedView::NoPath,
    }
}

/// The commands of `start`.
pub open spec fn commands(sessions: Seq<ExpandedSessionView>) -> Seq<EffectView> {
    start_step(Some(sessions)).effects
}

/// `start` has succeeded.
pub open spec fn succeeds(sessions: Seq<ExpandedSessionView>) -> bool {
    start_step(Some(sessions)).next == NextView::Finish(Ok(SubCommandGivenView::Yes))
}

/// What is run for a name and a path.
proof fn lemma_open(
    base: Seq<char>,
    flag: Seq<char>,
    name: Option<Seq<char>>,
    path: Option<Seq<char>>,
)
    ensures
        open_plan(base, flag, name, expanded_to(path)) == (Plan {
            effects: seq![EffectView::Tmux(with_options(base, flag, name, path))],
            missing: None,
        }),
{
    let none = Seq::<char>::empty();
    assert(base + none =~= base);
}

/// Without sessions `start` only attaches. Two lists of sessions are started one after the other, and
/// then it attaches.
pub proof fn law_lists_start_one_after_the_other(
    a: Seq<ExpandedSessionView>,
    b: Seq<ExpandedSessionView>,
)
    requires
        succeeds(a),
        succeeds(b),
    ensures
        start_step(Some(Seq::<ExpandedSessionView>::empty())) == (StepView {
            effects: seq![EffectView::Tmux("tmux attach"@)],
            next: NextView::Finish(Ok(SubCommandGivenView::Yes)),
        }),
        commands(a).len() > 0 && commands(a).last() == EffectView::Tmux("tmux attach"@),
        succeeds(a + b),
        commands(a + b) == commands(a).drop_last() + commands(b),
{
    law_sessions_start_in_order(a, b);
    let none = Seq::<EffectView>::empty();
    assert(none.push(EffectView::Tmux("tmux attach"@)) =~= seq![EffectView::Tmux("tmux attach"@)]);
    assert(commands(a).drop_last() =~= sessions_plan(a).effects);
    assert(commands(a + b) =~= commands(a).drop_last() + commands(b));
}

/// The plan of a single session.
proof fn lemma_single(session: ExpandedSessionView)
    ensures
        sessions_plan(seq![session]).effects == session_plan(session).effects,
        sessions_plan(seq![session]).missing == session_plan(session).missing,
{
    reveal_with_fuel(sessions_plan, 2);
    assert(seq![session].drop_last() =~= Seq::<ExpandedSessionView>::empty());
    assert(Seq::<EffectView>::empty() + session_plan(session).effects =~= session_plan(
        session,
    ).effects);
}

/// A session is started under its name and in its directory. Where windows are listed for it, they
/// take the place of the one it starts with.
pub proof fn law_one_session(name: Option<Seq<char>>, path: Option<Seq<char>>)
    ensures
        start_step(
            Some(seq![ExpandedSessionView { name, path: expanded_to(path), windows: None }]),
        ) == (StepView {
            effects: seq![
                EffectView::Tmux(with_options("tmux new-session -d"@, " -s "@, name, path)),
                EffectView::Tmux("tmux attach"@),
            ],
            next: NextView::Finish(Ok(SubCommandGivenView::Yes)),
        }),
        start_step(
            Some(
                seq![
                    ExpandedSessionView {
                        name,
                        path: expanded_to(path),
                        windows: Some(Seq::<ExpandedWindowView>::empty()),
                    },
                ],
            ),
        ) == (StepView {
            effects: seq![
                EffectView::Tmux(with_options("tmux new-session -d"@, " -s "@, name, path)),
                EffectView::Tmux("tmux kill-window -t :1"@),
                EffectView::Tmux("tmux attach"@),
            ],
            next: NextView::Finish(Ok(SubCommandGivenView::Yes)),
        }),
{
    let base = "tmux new-session -d"@;
    lemma_open(base, " -s "@, name, path);
    let open = EffectView::Tmux(with_options(base, " -s "@, name, path));
    let attach = EffectView::Tmux("tmux attach"@);
    let close = EffectView::Tmux("tmux kill-window -t :1"@);
    let plain = ExpandedSessionView { name, path: expanded_to(path), windows: None };
    let listed = ExpandedSessionView {
        name,
        path: expanded_to(path),
        windows: Some(Seq::<ExpandedWindowView>::empty()),
    };
    lemma_single(plain);
    lemma_single(listed);
    assert(session_plan(plain).effects =~= seq![open]);
    assert(session_plan(listed).effects =~= seq![open, close]);
    assert(start_step(Some(seq![plain])).effects =~= seq![open, attach]);
    assert(start_step(Some(seq![listed])).effects =~= seq![open, close, attach]);
}

/// One more window is opened behind the others, under its name and in its directory, and right after
/// that its command is typed into it, whole and followed by Enter, where it has one.
pub proof fn law_one_more_window(
    session: ExpandedSessionView,
    windows: Seq<ExpandedWindowView>,
    name: Option<Seq<char>>,
    path: Option<Seq<char>>,
    command: Option<Seq<char>>,
)
    requires
        session.windows == Some(windows),
        succeeds(seq![session]),
    ensures
        ({
            let window = ExpandedWindowView { name, path: expanded_to(path), command };
            let longer = ExpandedSessionView { windows: Some(windows.push(window)), ..session };
            let before = commands(seq![session]);
            let after = commands(seq![longer]);
            let opened = EffectView::Tmux(with_options("tmux new-window"@, " -n "@, name, path));
            &&& succeeds(seq![longer])
            &&& before.len() >= 3
            &&& after == before.drop_last().drop_last() + match command {
                Some(command) => seq![
                    opened,
                    EffectView::Tmux("tmux send-keys "@ + command + " Enter"@),
                    EffectView::Tmux("tmux kill-window -t :1"@),
                    EffectView::Tmux("tmux attach"@),
                ],
                None => seq![
                    opened,
                    EffectView::Tmux("tmux kill-window -t :1"@),
                    EffectView::Tmux("tmux attach"@),
                ],
            }
        }),
{
    let window = ExpandedWindowView { name, path: expanded_to(path), command };
    let longer = ExpandedSessionView { windows: Some(windows.push(window)), ..session };
    lemma_open("tmux new-window"@, " -n "@, name, path);
    lemma_single(session);
    lemma_single(longer);
    assert(windows.push(window).drop_last() =~= windows);
    let attach = EffectView::Tmux("tmux attach"@);
    let close = EffectView::Tmux("tmux kill-window -t :1"@);
    let open = open_plan("tmux new-session -d"@, " -s "@, session.name, session.path);
    let all = windows_plan(windows);
    let more = windows_plan(windows.push(window));
    assert(open.missing is None && all.missing is None);
    assert(open.effects.len() == 1);
    let before = commands(seq![session]);
    assert(before =~= open.effects + all.effects + seq![close, attach]);
    assert(before.drop_last().drop_last() =~= open.effects + all.effects);
    let opened = EffectView::Tmux(with_options("tmux new-window"@, " -n "@, name, path));
    let own = match command {
        Some(command) => seq![opened, EffectView::Tmux("tmux send-keys "@ + command + " Enter"@)],
        None => seq![opened],
    };
    assert(window_plan(window).effects =~= own);
    assert(more.effects =~= all.effects + own);
    assert(commands(seq![longer]) =~= open.effects + (all.effects + own) + seq![close, attach]);
    assert(commands(seq![longer]) =~= before.drop_last().drop_last() + own + seq![close, attach]);
    assert(commands(seq![longer]) =~= before.drop_last().drop_last() + match command {
        Some(command) => seq![
            opened,
            EffectView::Tmux("tmux send-keys "@ + command + " Enter"@),
            close,
            attach,
        ],
        None => seq![opened, close, attach],
    });
}

/// The failure that names a variable.
pub open spec fn names_missing(step: StepView, missing: MissingView) -> bool {
    &&& step.next matches NextView::Finish(Err(failure))
    &&& failure.error == TmsError::IoError
    &&& failure.missing == Some(missing)
}

/// Where the directory of a session refers to a variable that is missing, the sessions before it have
/// been started, nothing more is done, and the variable is named.
pub proof fn law_session_with_missing_variable(
    before: Seq<ExpandedSessionView>,
    name: Option<Seq<char>>,
    missing: MissingView,
    windows: Option<Seq<ExpandedWindowView>>,
    after: Seq<ExpandedSessionView>,
)
    requires
        succeeds(before),
    ensures
        ({
            let bad = ExpandedSessionView { name, path: ExpandedView::Failed(missing), windows };
            let step = start_step(Some(before.push(bad) + after));
            &&& step.effects == commands(before).drop_last()
            &&& names_missing(step, missing)
        }),
{
    let bad = ExpandedSessionView { name, path: ExpandedView::Failed(missing), windows };
    assert(session_plan(bad).effects =~= Seq::<EffectView>::empty());
    law_start_stops_at_failure(before, bad, after);
    assert(commands(before).drop_last() =~= sessions_plan(before).effects);
    assert(sessions_plan(before).effects + session_plan(bad).effects =~= sessions_plan(
        before,
    ).effects);
}

/// Where the directory of a window refers to a variable that is missing, its session and the windows
/// before it have been opened, nothing more is done, and the variable is named.
pub proof fn law_window_with_missing_variable(
    session: ExpandedSessionView,
    windows: Seq<ExpandedWindowView>,
    name: Option<Seq<char>>,
    missing: MissingView,
    command: Option<Seq<char>>,
    after: Seq<ExpandedWindowView>,
)
    requires
        session.windows == Some(windows),
        succeeds(seq![session]),
    ensures
        ({
            let bad = ExpandedWindowView { name, path: ExpandedView::Failed(missing), command };
            let longer = ExpandedSessionView {
                windows: Some(windows.push(bad) + after),
                ..session
            };
            let step = start_step(Some(seq![longer]));
            &&& step.effects == commands(seq![session]).drop_last().drop_last()
            &&& names_missing(step, missing)
        }),
{
    let bad = ExpandedWindowView { name, path: ExpandedView::Failed(missing), command };
    let longer = ExpandedSessionView { windows: Some(windows.push(bad) + after), ..session };
    lemma_single(session);
    lemma_single(longer);
    let open = open_plan("tmux new-session -d"@, " -s "@, session.name, session.path);
    let all = windows_plan(windows);
    assert(open.missing is None && all.missing is None);
    assert(windows.push(bad).drop_last() =~= windows);
    assert(windows_plan(windows.push(bad)).effects =~= all.effects);
    lemma_windows_stop(windows.push(bad), after);
    let attach = EffectView::Tmux("tmux attach"@);
    let close = EffectView::Tmux("tmux kill-window -t :1"@);
    let before = commands(seq![session]);
    assert(before =~= open.effects + all.effects + seq![close, attach]);
    assert(before.drop_last().drop_last() =~= open.effects + all.effects);
    assert(session_plan(longer).effects =~= open.effects + all.effects);
}

/// Windows behind one that fails do not matter.
proof fn lemma_windows_stop(windows: Seq<ExpandedWindowView>, after: Seq<ExpandedWindowView>)
    requires
        windows_plan(windows).missing is Some,
    ensures
        windows_plan(windows + after) == windows_plan(windows),
    decreases after.len(),
{
    let all = windows + after;
    if after.len() == 0 {
        assert(all =~= windows);
    } else {
        assert(all.drop_last() =~= windows + after.drop_last());
        lemma_windows_stop(windows, after.drop_last());
    }
}

} // verus!
