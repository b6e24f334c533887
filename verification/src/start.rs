//! `start`: initialise `tmux` with the default sessions.

use crate::config::{
    opt_view, session_views, window_views, Session, SessionView, Window, WindowView,
};
use crate::expansion::{copy_missing, expands, Environment, EnvironmentView, Missing, MissingView};
use crate::outside::expand;
use crate::protocol::{
    done, effect_views, fail_on, failed, finish, not_found, Effect, EffectView, Step, StepView,
};
use crate::text::concat3;
use vstd::prelude::*;

verus! {

/// The path of a session or a window after its expansion.
pub enum Expanded {
    /// None is configured.
    NoPath,
    /// The expanded path.
    Path(String),
    /// It refers to a variable that is missing.
    Failed(Missing),
}

/// A window with its path expanded.
pub struct ExpandedWindow {
    pub name: Option<String>,
    pub path: Expanded,
    pub command: Option<String>,
}

/// A session with its paths expanded.
pub struct ExpandedSession {
    pub name: Option<String>,
    pub path: Expanded,
    pub windows: Option<Vec<ExpandedWindow>>,
}

pub enum ExpandedView {
    NoPath,
    Path(Seq<char>),
    Failed(MissingView),
}

pub struct ExpandedWindowView {
    pub name: Option<Seq<char>>,
    pub path: ExpandedView,
    pub command: Option<Seq<char>>,
}

pub struct ExpandedSessionView {
    pub name: Option<Seq<char>>,
    pub path: ExpandedView,
    pub windows: Option<Seq<ExpandedWindowView>>,
}

impl View for Expanded {
    type V = ExpandedView;

    open spec fn view(&self) -> ExpandedView {
        match self {
            Expanded::NoPath => ExpandedView::NoPath,
            Expanded::Path(path) => ExpandedView::Path(path@),
            Expanded::Failed(missing) => ExpandedView::Failed(missing@),
        }
    }
}

impl View for ExpandedWindow {
    type V = ExpandedWindowView;

    open spec fn view(&self) -> ExpandedWindowView {
        ExpandedWindowView {
            name: opt_view(self.name),
            path: self.path@,
            command: opt_view(self.command),
        }
    }
}

/// The views of a list of windows.
pub open spec fn expanded_window_views(windows: Seq<ExpandedWindow>) -> Seq<ExpandedWindowView> {
    windows.map_values(|w: ExpandedWindow| w@)
}

impl View for ExpandedSession {
    type V = ExpandedSessionView;

    open spec fn view(&self) -> ExpandedSessionView {
        ExpandedSessionView {
            name: opt_view(self.name),
            path: self.path@,
            windows: match self.windows {
                Some(windows) => Some(expanded_window_views(windows@)),
                None => None,
            },
        }
    }
}

/// The views of a list of sessions.
pub open spec fn expanded_session_views(sessions: Seq<ExpandedSession>) -> Seq<
    ExpandedSessionView,
> {
    sessions.map_values(|s: ExpandedSession| s@)
}

/// The view of an optional list of sessions.
pub open spec fn opt_expanded_views(sessions: Option<Vec<ExpandedSession>>) -> Option<
    Seq<ExpandedSessionView>,
> {
    match sessions {
        Some(sessions) => Some(expanded_session_views(sessions@)),
        None => None,
    }
}

/// `after` is what the optional path `before` becomes in `environment`.
pub open spec fn path_expands(
    before: Option<Seq<char>>,
    environment: EnvironmentView,
    after: ExpandedView,
) -> bool {
    match before {
        None => after is NoPath,
        Some(path) => match after {
            ExpandedView::NoPath => false,
            ExpandedView::Path(expanded) => expands(path, environment, Ok(expanded)),
            ExpandedView::Failed(missing) => expands(path, environment, Err(missing)),
        },
    }
}

/// `after` is `before` with its path expanded.
pub open spec fn window_expands(
    before: WindowView,
    environment: EnvironmentView,
    after: ExpandedWindowView,
) -> bool {
    &&& after.name == before.name
    &&& after.command == before.command
    &&& path_expands(before.path, environment, after.path)
}

/// `after` is `before` with the path of each window expanded.
pub open spec fn windows_expand(
    before: Seq<WindowView>,
    environment: EnvironmentView,
    after: Seq<ExpandedWindowView>,
) -> bool {
    &&& after.len() == before.len()
    &&& forall|i: int|
        0 <= i < before.len() ==> window_expands(before[i], environment, #[trigger] after[i])
}

/// `after` is `before` with its paths expanded.
pub open spec fn session_expands(
    before: SessionView,
    environment: EnvironmentView,
    after: ExpandedSessionView,
) -> bool {
    &&& after.name == before.name
    &&& path_expands(before.path, environment, after.path)
    &&& match before.windows {
        None => after.windows is None,
        Some(windows) => after.windows is Some && windows_expand(
            windows,
            environment,
            after.windows->0,
        ),
    }
}

/// `after` is `before` with the paths of each session expanded, all in one environment.
pub open spec fn sessions_expand(
    before: Option<Seq<SessionView>>,
    environment: EnvironmentView,
    after: Option<Seq<ExpandedSessionView>>,
) -> bool {
    match before {
        None => after is None,
        Some(sessions) => {
            &&& after is Some
            &&& after->0.len() == sessions.len()
            &&& forall|i: int|
                0 <= i < sessions.len() ==> session_expands(
                    sessions[i],
                    environment,
                    #[trigger] after->0[i],
                )
        },
    }
}

/// Commands to run in order, and the variable that is missing where the plan ends early.
pub struct Plan {
    pub effects: Seq<EffectView>,
    pub missing: Option<MissingView>,
}

/// `first`, and then, unless it failed, `second`.
pub open spec fn and_next(first: Plan, second: Plan) -> Plan {
    if first.missing is None {
        Plan { effects: first.effects + second.effects, missing: second.missing }
    } else {
        first
    }
}

/// The plan with one command.
pub open spec fn one(command: Seq<char>) -> Plan {
    Plan { effects: seq![EffectView::Tmux(command)], missing: None }
}

/// The plan with no command.
pub open spec fn nothing() -> Plan {
    Plan { effects: Seq::<EffectView>::empty(), missing: None }
}

/// `flag` and the value, where there is one.
pub open spec fn flagged(flag: Seq<char>, value: Option<Seq<char>>) -> Seq<char> {
    match value {
        Some(value) => flag + value,
        None => Seq::<char>::empty(),
    }
}

/// The command `base`, with a name under `name_flag` and a path under `-c`; fails with the path.
pub open spec fn open_plan(
    base: Seq<char>,
    name_flag: Seq<char>,
    name: Option<Seq<char>>,
    path: ExpandedView,
) -> Plan {
    match path {
        ExpandedView::Failed(missing) => Plan {
            effects: Seq::<EffectView>::empty(),
            missing: Some(missing),
        },
        ExpandedView::NoPath => one(base + flagged(name_flag, name)),
        ExpandedView::Path(path) => one(base + flagged(name_flag, name) + (" -c "@ + path)),
    }
}

/// Opens a window, and types its command into it.
pub open spec fn window_plan(window: ExpandedWindowView) -> Plan {
    and_next(
        open_plan("tmux new-window"@, " -n "@, window.name, window.path),
        match window.command {
            Some(command) => one("tmux send-keys "@ + command + " Enter"@),
            None => nothing(),
        },
    )
}

/// Opens the windows in order.
pub open spec fn windows_plan(windows: Seq<ExpandedWindowView>) -> Plan
    decreases windows.len(),
{
    if windows.len() == 0 {
        nothing()
    } else {
        and_next(windows_plan(windows.drop_last()), window_plan(windows.last()))
    }
}

/// Starts a session, and opens its windows in the place of the one it starts with.
pub open spec fn session_plan(session: ExpandedSessionView) -> Plan {
    and_next(
        open_plan("tmux new-session -d"@, " -s "@, session.name, session.path),
        match session.windows {
            Some(windows) => and_next(windows_plan(windows), one("tmux kill-window -t :1"@)),
            None => nothing(),
        },
    )
}

/// Starts the sessions in order.
pub open spec fn sessions_plan(sessions: Seq<ExpandedSessionView>) -> Plan
    decreases sessions.len(),
{
    if sessions.len() == 0 {
        nothing()
    } else {
        and_next(sessions_plan(sessions.drop_last()), session_plan(sessions.last()))
    }
}

/// Starts the default sessions and attaches to one; where none are configured, starts `tmux`. Where a
/// path cannot be expanded, the run ends there.
pub open spec fn start_step(sessions: Option<Seq<ExpandedSessionView>>) -> StepView {
    match sessions {
        None => done(seq![EffectView::Tmux("tmux"@)]),
        Some(sessions) => {
            let plan = sessions_plan(sessions);
            match plan.missing {
                None => done(plan.effects.push(EffectView::Tmux("tmux attach"@))),
                Some(missing) => failed(plan.effects, not_found(missing)),
            }
        },
    }
}

/// The view of what is missing, if anything is.
pub open spec fn missing_view(missing: Option<Missing>) -> Option<MissingView> {
    match missing {
        Some(missing) => Some(missing@),
        None => None,
    }
}

/// Expands an optional path.
fn expand_path(path: &Option<String>, environment: &Environment) -> (r: Expanded)
    ensures
        path_expands(opt_view(*path), environment@, r@),
{
    match path {
        None => Expanded::NoPath,
        Some(path) => match expand(path.as_str(), environment) {
            Ok(expanded) => Expanded::Path(expanded),
            Err(missing) => Expanded::Failed(missing),
        },
    }
}

/// A copy of an optional string.
fn copy(s: &Option<String>) -> (r: Option<String>)
    ensures
        opt_view(r) == opt_view(*s),
{
    match s {
        Some(s) => Some(s.clone()),
        None => None,
    }
}

/// Expands the paths of the windows.
fn expand_windows(windows: &Vec<Window>, environment: &Environment) -> (r: Vec<ExpandedWindow>)
    ensures
        windows_expand(window_views(windows@), environment@, expanded_window_views(r@)),
{
    let mut out: Vec<ExpandedWindow> = Vec::new();
    let mut i: usize = 0;
    while i < windows.len()
        invariant
            i <= windows.len(),
            out.len() == i,
            forall|j: int| 0 <= j < i ==> window_expands(
                    windows@[j]@,
                    environment@,
                    #[trigger] out@[j]@,
                ),
        decreases windows.len() - i,
    {
        let window = &windows[i];
        out.push(
            ExpandedWindow {
                name: copy(&window.name),
                path: expand_path(&window.path, environment),
                command: copy(&window.command),
            },
        );
        i += 1;
    }
    out
}

/// Expands the paths of the default sessions and their windows.
pub fn expand_sessions(sessions: &Option<Vec<Session>>, environment: &Environment) -> (r: Option<
    Vec<ExpandedSession>,
>)
    ensures
        sessions_expand(
            match sessions {
                Some(sessions) => Some(session_views(sessions@)),
                None => None,
            },
            environment@,
            opt_expanded_views(r),
        ),
{
    match sessions {
        None => None,
        Some(sessions) => {
            let mut out: Vec<ExpandedSession> = Vec::new();
            let mut i: usize = 0;
            while i < sessions.len()
                invariant
                    i <= sessions.len(),
                    out.len() == i,
                    forall|j: int|
                        0 <= j < i ==> session_expands(
                            sessions@[j]@,
                            environment@,
                            #[trigger] out@[j]@,
                        ),
                decreases sessions.len() - i,
            {
                let session = &sessions[i];
                let windows = match &session.windows {
                    Some(windows) => Some(expand_windows(windows, environment)),
                    None => None,
                };
                out.push(
                    ExpandedSession {
                        name: copy(&session.name),
                        path: expand_path(&session.path, environment),
                        windows,
                    },
                );
                i += 1;
            }
            Some(out)
        },
    }
}

/// Adds the command `base`, with a name and a path; gives the variable that is missing in the path.
fn add_open(
    base: &str,
    name_flag: &str,
    name: &Option<String>,
    path: &Expanded,
    effects: &mut Vec<Effect>,
) -> (missing: Option<Missing>)
    ensures
        effect_views(final(effects)@) == effect_views(old(effects)@) + open_plan(
            base@,
            name_flag@,
            opt_view(*name),
            path@,
        ).effects,
        missing_view(missing) == open_plan(base@, name_flag@, opt_view(*name), path@).missing,
{
    let ghost before = effect_views(effects@);
    let mut command = base.to_owned();
    if let Some(name) = name {
        command = concat3(base, name_flag, name.as_str());
    }
    assert(command@ =~= base@ + flagged(name_flag@, opt_view(*name)));
    match path {
        Expanded::Failed(missing) => {
            assert(effect_views(effects@) =~= before + Seq::<EffectView>::empty());
            return Some(copy_missing(missing));
        },
        Expanded::NoPath => {},
        Expanded::Path(path) => {
            let ghost named = command@;
            command.append(" -c ");
            command.append(path.as_str());
            assert(command@ =~= named + (" -c "@ + path@));
        },
    }
    effects.push(Effect::Tmux(command));
    assert(effect_views(effects@) =~= before + seq![EffectView::Tmux(command@)]);
    None
}

/// Adds one command.
fn add_one(command: String, effects: &mut Vec<Effect>)
    ensures
        effect_views(final(effects)@) == effect_views(old(effects)@) + one(command@).effects,
{
    let ghost before = effect_views(effects@);
    effects.push(Effect::Tmux(command));
    assert(effect_views(effects@) =~= before + seq![EffectView::Tmux(command@)]);
}

/// Adds what opens a window.
fn add_window(window: &ExpandedWindow, effects: &mut Vec<Effect>) -> (missing: Option<Missing>)
    ensures
        effect_views(final(effects)@) == effect_views(old(effects)@) + window_plan(window@).effects,
        missing_view(missing) == window_plan(window@).missing,
{
    let ghost before = effect_views(effects@);
    let missing = add_open("tmux new-window", " -n ", &window.name, &window.path, effects);
    if missing.is_some() {
        return missing;
    }
    if let Some(command) = &window.command {
        add_one(concat3("tmux send-keys ", command.as_str(), " Enter"), effects);
    }
    assert(effect_views(effects@) =~= before + window_plan(window@).effects);
    None
}

/// Adds what opens the windows.
fn add_windows(windows: &Vec<ExpandedWindow>, effects: &mut Vec<Effect>) -> (missing: Option<Missing>)
    ensures
        effect_views(final(effects)@) == effect_views(old(effects)@) + windows_plan(
            expanded_window_views(windows@),
        ).effects,
        missing_view(missing) == windows_plan(expanded_window_views(windows@)).missing,
{
    let ghost before = effect_views(effects@);
    let ghost all = expanded_window_views(windows@);
    let mut i: usize = 0;
    assert(before + windows_plan(all.take(0)).effects =~= before);
    while i < windows.len()
        invariant
            i <= windows.len(),
            all == expanded_window_views(windows@),
            before == effect_views(old(effects)@),
            effect_views(effects@) == before + windows_plan(all.take(i as int)).effects,
            windows_plan(all.take(i as int)).missing is None,
        decreases windows.len() - i,
    {
        assert(all.take(i + 1).drop_last() =~= all.take(i as int));
        assert(all.take(i + 1).last() == windows@[i as int]@);
        let missing = add_window(&windows[i], effects);
        assert(effect_views(effects@) =~= before + windows_plan(all.take(i + 1)).effects);
        if missing.is_some() {
            proof {
                lemma_windows_stuck(all, i + 1);
            }
            return missing;
        }
        i += 1;
    }
    assert(all.take(i as int) =~= all);
    None
}

/// Adds what starts a session.
fn add_session(session: &ExpandedSession, effects: &mut Vec<Effect>) -> (missing: Option<Missing>)
    ensures
        effect_views(final(effects)@) == effect_views(old(effects)@) + session_plan(
            session@,
        ).effects,
        missing_view(missing) == session_plan(session@).missing,
{
    let ghost before = effect_views(effects@);
    let missing = add_open(
        "tmux new-session -d",
        " -s ",
        &session.name,
        &session.path,
        effects,
    );
    if missing.is_some() {
        return missing;
    }
    if let Some(windows) = &session.windows {
        let missing = add_windows(windows, effects);
        if missing.is_some() {
            assert(effect_views(effects@) =~= before + session_plan(session@).effects);
            return missing;
        }
        add_one("tmux kill-window -t :1".to_owned(), effects);
    }
    assert(effect_views(effects@) =~= before + session_plan(session@).effects);
    None
}

/// Starts the default sessions, whose paths have been expanded.
pub fn start_sessions(sessions: Option<Vec<ExpandedSession>>) -> (r: Step)
    ensures
        r@ == start_step(opt_expanded_views(sessions)),
{
    let mut effects: Vec<Effect> = Vec::new();
    assert(effect_views(effects@) =~= Seq::<EffectView>::empty());
    match &sessions {
        None => {
            effects.push(Effect::Tmux("tmux".to_owned()));
            assert(effect_views(effects@) =~= seq![EffectView::Tmux("tmux"@)]);
            finish(effects)
        },
        Some(list) => {
            let ghost all = expanded_session_views(list@);
            let mut i: usize = 0;
            while i < list.len()
                invariant
                    i <= list.len(),
                    opt_expanded_views(sessions) == Some(all),
                    all == expanded_session_views(list@),
                    effect_views(effects@) == sessions_plan(all.take(i as int)).effects,
                    sessions_plan(all.take(i as int)).missing is None,
                decreases list.len() - i,
            {
                assert(all.take(i + 1).drop_last() =~= all.take(i as int));
                assert(all.take(i + 1).last() == list@[i as int]@);
                if let Some(missing) = add_session(&list[i], &mut effects) {
                    proof {
                        lemma_sessions_stuck(all, i + 1);
                    }
                    return fail_on(effects, missing);
                }
                i += 1;
            }
            assert(all.take(i as int) =~= all);
            let ghost before = effect_views(effects@);
            effects.push(Effect::Tmux("tmux attach".to_owned()));
            assert(effect_views(effects@) =~= before.push(EffectView::Tmux("tmux attach"@)));
            finish(effects)
        },
    }
}

/// Where a window fails, the ones after it add nothing.
proof fn lemma_windows_stuck(windows: Seq<ExpandedWindowView>, n: int)
    requires
        0 <= n <= windows.len(),
        windows_plan(windows.take(n)).missing is Some,
    ensures
        windows_plan(windows) == windows_plan(windows.take(n)),
    decreases windows.len(),
{
    if n == windows.len() {
        assert(windows.take(n) =~= windows);
    } else {
        assert(windows.drop_last().take(n) =~= windows.take(n));
        lemma_windows_stuck(windows.drop_last(), n);
    }
}

/// Where a session fails, the ones after it add nothing.
proof fn lemma_sessions_stuck(sessions: Seq<ExpandedSessionView>, n: int)
    requires
        0 <= n <= sessions.len(),
        sessions_plan(sessions.take(n)).missing is Some,
    ensures
        sessions_plan(sessions) == sessions_plan(sessions.take(n)),
    decreases sessions.len(),
{
    if n == sessions.len() {
        assert(sessions.take(n) =~= sessions);
    } else {
        assert(sessions.drop_last().take(n) =~= sessions.take(n));
        lemma_sessions_stuck(sessions.drop_last(), n);
    }
}

} // verus!
