//! The run of a subcommand: its first step, and how each answer leads to the next.

use crate::config::{Config, ConfigView};
use crate::configure;
use crate::configure::{
    can_remove, config_after_path, config_after_saved, config_step, paths_expand,
};
use crate::expansion::{Environment, EnvironmentView, MissingView};
use crate::kill;
use crate::kill::{kill_after_current, kill_after_list, kill_begin};
use crate::list;
use crate::list::{sessions_after_current, sessions_after_list, sessions_begin};
use crate::pick;
use crate::pick::{pick_after_choice, pick_after_list, pick_begin};
use crate::protocol::{
    fail, failed, only, search_path_views, EffectView, Next, NextView, Pick, Reply, ReplyView, Step,
    StepView, SubCommandGiven, SubCommandGivenView, TmsError, Waiting, WaitingView,
};
use crate::refresh;
use crate::refresh::{
    refresh_after_bare, refresh_after_count, refresh_after_name, refresh_after_opened,
    refresh_after_path, refresh_after_windows, refresh_after_worktree, refresh_after_worktrees,
    refresh_begin,
};
use crate::rename;
use crate::rename::{lists_panes, rename_after_current, rename_after_panes, rename_begin};
use crate::request::{
    complete, is_complete, opt_matches_view, read_request, request_of, ConfigArgs, Matches,
    MatchesView, Request, RequestView,
};
use crate::split_window;
use crate::split_window::{
    split_after_opened, split_after_path, split_after_repository, split_after_window,
    split_after_worktree, split_begin,
};
use crate::start;
use crate::start::{sessions_expand, start_step, ExpandedSessionView};
use crate::text::{is_text, lines, lines_of, printed_text, views};
use vstd::prelude::*;
use vstd::utf8::{decode_utf8, valid_utf8};

verus! {

/// `step` is the first step of `request` under `config`, in `environment`. Only `start` and `config`
/// expand paths.
pub open spec fn begins(
    request: RequestView,
    config: ConfigView,
    environment: EnvironmentView,
    step: StepView,
) -> bool {
    match request {
        RequestView::Start => exists|sessions: Option<Seq<ExpandedSessionView>>|
            sessions_expand(config.sessions, environment, sessions) && step == #[trigger] start_step(
                sessions,
            ),
        RequestView::Config(args) => exists|
            expansions: Option<Seq<Result<Seq<char>, MissingView>>>,
        |
            paths_expand(args.search_paths, environment, expansions) && step == #[trigger] config_step(
                config,
                args,
                expansions,
            ),
        RequestView::Switch => step == pick_begin(Pick::Session),
        RequestView::Windows => step == pick_begin(Pick::Window),
        RequestView::Kill => step == kill_begin(config.default_session),
        RequestView::Sessions => step == sessions_begin(),
        RequestView::Rename(name) => step == rename_begin(name),
        RequestView::Refresh(name) => step == refresh_begin(name),
        RequestView::SplitWindow(args) => step == split_begin(args),
        RequestView::Other => step == (StepView {
            effects: Seq::<EffectView>::empty(),
            next: NextView::Finish(Ok(SubCommandGivenView::No(config))),
        }),
    }
}

/// `request` can be begun under `config`: where directories are to be removed from the excluded ones
/// at once, there are some.
pub open spec fn can_begin(request: RequestView, config: ConfigView) -> bool {
    request matches RequestView::Config(args) ==> (args.search_paths is None
        || args.search_paths->0.len() == 0) ==> can_remove(config, args)
}

/// The answer is of the kind that is awaited, and says what it has to say: output is text; at least
/// one session is listed where one to jump to is sought; every line that is to describe a pane does.
pub open spec fn accepts(waiting: WaitingView, reply: ReplyView) -> bool {
    match waiting {
        WaitingView::PickChoice(_) => reply is Selection,
        WaitingView::ConfigPath { config, args, paths, found } => {
            &&& found.len() < paths.len()
            &&& reply matches ReplyView::Canonical(canonical)
            &&& canonical is Some && found.len() + 1 == paths.len() ==> can_remove(config, args)
        },
        WaitingView::ConfigSaved => reply is Saved,
        WaitingView::RefreshOpened { .. } => reply is Opened,
        WaitingView::RefreshWorktrees { .. } => reply is Worktrees,
        WaitingView::RefreshWorktree { names, at, count, .. } => {
            &&& reply is Worktree
            &&& at < names.len()
            &&& count <= at
        },
        WaitingView::RefreshBare { .. } => reply is Bare,
        WaitingView::SplitOpened { .. } => reply is Opened,
        WaitingView::SplitRepository { .. } => reply is RepositoryPath,
        WaitingView::SplitWorktree { .. } => reply is Worktree,
        WaitingView::KillList { .. } => {
            &&& reply matches ReplyView::Output(bytes)
            &&& valid_utf8(bytes)
            &&& lines_of(decode_utf8(bytes)).len() > 0
        },
        WaitingView::RenamePanes { .. } => {
            &&& reply matches ReplyView::Output(bytes)
            &&& valid_utf8(bytes)
            &&& lists_panes(decode_utf8(bytes))
        },
        _ => {
            &&& reply matches ReplyView::Output(bytes)
            &&& valid_utf8(bytes)
        },
    }
}

/// The step that an answer leads to.
pub open spec fn next_step(waiting: WaitingView, reply: ReplyView) -> StepView
    recommends
        accepts(waiting, reply),
{
    let text = decode_utf8(reply->Output_0);
    match waiting {
        WaitingView::PickList(pick) => pick_after_list(pick, text),
        WaitingView::PickChoice(pick) => pick_after_choice(pick, reply->Selection_0),
        WaitingView::ConfigPath { config, args, paths, found } => config_after_path(
            config,
            args,
            paths,
            found,
            reply->Canonical_0,
        ),
        WaitingView::ConfigSaved => config_after_saved(reply->Saved_0),
        WaitingView::KillCurrent { default } => kill_after_current(default, text),
        WaitingView::KillList { default, current } => kill_after_list(default, current, text),
        WaitingView::SessionsCurrent => sessions_after_current(text),
        WaitingView::SessionsList { current } => sessions_after_list(current, text),
        WaitingView::RenameCurrent { name } => rename_after_current(name, text),
        WaitingView::RenamePanes { name, current } => rename_after_panes(name, current, text),
        WaitingView::RefreshPath { name } => refresh_after_path(name, text),
        WaitingView::RefreshName { name, path } => refresh_after_name(name, path, text),
        WaitingView::RefreshWindows { session, path } => refresh_after_windows(session, path, text),
        WaitingView::RefreshOpened { session, path, existing } => refresh_after_opened(
            session,
            path,
            existing,
            reply->Opened_0,
        ),
        WaitingView::RefreshWorktrees { session, path, existing } => refresh_after_worktrees(
            session,
            path,
            existing,
            reply->Worktrees_0,
        ),
        WaitingView::RefreshWorktree { session, path, existing, names, at, count } =>
            refresh_after_worktree(session, path, existing, names, at, count, reply->Worktree_0),
        WaitingView::RefreshBare { session, path, count } => refresh_after_bare(
            session,
            path,
            count,
            reply->Bare_0,
        ),
        WaitingView::RefreshCount { session, path, count } => refresh_after_count(
            session,
            path,
            count,
            text,
        ),
        WaitingView::SplitPath { args } => split_after_path(args, text),
        WaitingView::SplitWindow { args, path } => split_after_window(args, path, text),
        WaitingView::SplitOpened { kept, window } => split_after_opened(
            kept,
            window,
            reply->Opened_0,
        ),
        WaitingView::SplitRepository { kept, window } => split_after_repository(
            kept,
            window,
            reply->RepositoryPath_0,
        ),
        WaitingView::SplitWorktree { kept, fallback } => split_after_worktree(
            kept,
            fallback,
            reply->Worktree_0,
        ),
    }
}

/// The first step of a request, under the configuration and in the environment.
pub fn begin(request: Request, config: Config, environment: &Environment) -> (r: Step)
    requires
        can_begin(request@, config@),
    ensures
        begins(request@, config@, environment@, r@),
{
    match request {
        Request::Start => {
            let sessions = start::expand_sessions(&config.sessions, environment);
            start::start_sessions(sessions)
        },
        Request::Switch => pick::begin(Pick::Session),
        Request::Windows => pick::begin(Pick::Window),
        Request::Config(args) => {
            let expansions = configure::expand_search_paths(&args.search_paths, environment);
            configure::begin(config, args, expansions)
        },
        Request::Kill => kill::begin(config.default_session),
        Request::Sessions => list::begin(),
        Request::Rename(name) => rename::begin(name),
        Request::Refresh(name) => refresh::begin(name),
        Request::SplitWindow(args) => split_window::begin(args),
        Request::Other => {
            let step = Step {
                effects: Vec::new(),
                next: Next::Finish(Ok(SubCommandGiven::No(config))),
            };
            assert(step@.effects =~= Seq::<EffectView>::empty());
            step
        },
    }
}

/// Whether directories can be removed from the excluded ones, if that is asked for.
fn is_removable(config: &Config, args: &ConfigArgs) -> (r: bool)
    ensures
        r == can_remove(config@, args@),
{
    args.removed_dirs.is_none() || config.excluded_dirs.is_some() || args.excluded_dirs.is_some()
}

/// A parsed command line can be handled under the configuration: `rename` is given a name, and the
/// request can be begun. Where the configuration could not be read, that is all there is to say.
pub open spec fn ready(cli_args: Option<MatchesView>, config: Option<ConfigView>) -> bool {
    config matches Some(config) ==> complete(cli_args) && can_begin(request_of(cli_args), config)
}

/// The view of an optional configuration.
pub open spec fn opt_config_view(config: Option<Config>) -> Option<ConfigView> {
    match config {
        Some(config) => Some(config@),
        None => None,
    }
}

/// Whether a parsed command line can be handled under the configuration.
pub fn is_ready(cli_args: &Option<Matches>, config: &Option<Config>) -> (r: bool)
    ensures
        r == ready(opt_matches_view(*cli_args), opt_config_view(*config)),
{
    match config {
        None => true,
        Some(config) => {
            if !is_complete(cli_args) {
                return false;
            }
            match read_request(cli_args) {
                Request::Config(args) => {
                    let at_once = match &args.search_paths {
                        None => true,
                        Some(paths) => {
                            assert(views(paths@).len() == paths@.len());
                            paths.len() == 0
                        },
                    };
                    !at_once || is_removable(config, &args)
                },
                _ => true,
            }
        },
    }
}

/// The first step for a parsed command line. `config` is the configuration, or `None` where it could
/// not be read; `environment` is what paths can refer to.
pub fn handle_sub_commands(
    cli_args: Option<Matches>,
    config: Option<Config>,
    environment: &Environment,
) -> (r: Step)
    requires
        ready(opt_matches_view(cli_args), opt_config_view(config)),
    ensures
        match config {
            Some(config) => begins(
                request_of(opt_matches_view(cli_args)),
                config@,
                environment@,
                r@,
            ),
            None => r@ == failed(Seq::<EffectView>::empty(), only(TmsError::ConfigError)),
        },
{
    match config {
        None => fail(TmsError::ConfigError),
        Some(config) => {
            let request = read_request(&cli_args);
            begin(request, config, environment)
        },
    }
}

/// Whether the answer is one that the run can go on with.
pub fn is_acceptable(waiting: &Waiting, reply: &Reply) -> (r: bool)
    ensures
        r == accepts(waiting@, reply@),
{
    match (waiting, reply) {
        (Waiting::PickChoice(_), Reply::Selection(_)) => true,
        (Waiting::PickChoice(_), _) => false,
        (Waiting::ConfigPath { config, args, paths, found }, Reply::Canonical(canonical)) => {
            assert(search_path_views(paths@).len() == paths@.len());
            found.len() < paths.len() && (canonical.is_none() || found.len() + 1 != paths.len()
                || is_removable(config, args))
        },
        (Waiting::ConfigPath { .. }, _) => false,
        (Waiting::ConfigSaved, Reply::Saved(_)) => true,
        (Waiting::ConfigSaved, _) => false,
        (Waiting::RefreshOpened { .. }, Reply::Opened(_)) => true,
        (Waiting::RefreshOpened { .. }, _) => false,
        (Waiting::RefreshWorktrees { .. }, Reply::Worktrees(_)) => true,
        (Waiting::RefreshWorktrees { .. }, _) => false,
        (Waiting::RefreshWorktree { names, at, count, .. }, Reply::Worktree(_)) => {
            assert(views(names@).len() == names@.len());
            *at < names.len() && *count <= *at
        },
        (Waiting::RefreshWorktree { .. }, _) => false,
        (Waiting::RefreshBare { .. }, Reply::Bare(_)) => true,
        (Waiting::RefreshBare { .. }, _) => false,
        (Waiting::SplitOpened { .. }, Reply::Opened(_)) => true,
        (Waiting::SplitOpened { .. }, _) => false,
        (Waiting::SplitRepository { .. }, Reply::RepositoryPath(_)) => true,
        (Waiting::SplitRepository { .. }, _) => false,
        (Waiting::SplitWorktree { .. }, Reply::Worktree(_)) => true,
        (Waiting::SplitWorktree { .. }, _) => false,
        (Waiting::KillList { .. }, Reply::Output(bytes)) => {
            if !is_text(bytes) {
                return false;
            }
            let text = printed_text(bytes.clone());
            let rows = lines(text.as_str());
            assert(views(rows@).len() == rows@.len());
            rows.len() > 0
        },
        (Waiting::RenamePanes { .. }, Reply::Output(bytes)) => {
            if !is_text(bytes) {
                return false;
            }
            let text = printed_text(bytes.clone());
            rename::is_pane_list(text.as_str())
        },
        (_, Reply::Output(bytes)) => is_text(bytes),
        (_, _) => false,
    }
}

/// The step that the output of a command leads to.
fn resume_output(waiting: Waiting, output: Vec<u8>) -> (r: Step)
    requires
        accepts(waiting@, ReplyView::Output(output@)),
    ensures
        r@ == next_step(waiting@, ReplyView::Output(output@)),
{
    let printed = printed_text(output);
    let text = printed.as_str();
    match waiting {
        Waiting::PickList(pick) => pick::after_list(pick, text),
        Waiting::KillCurrent { default } => kill::after_current(default, text),
        Waiting::KillList { default, current } => kill::after_list(default, current, text),
        Waiting::SessionsCurrent => list::after_current(text),
        Waiting::SessionsList { current } => list::after_list(current, text),
        Waiting::RenameCurrent { name } => rename::after_current(name, text),
        Waiting::RenamePanes { name, current } => rename::after_panes(name, current, text),
        Waiting::RefreshPath { name } => refresh::after_path(name, text),
        Waiting::RefreshName { name, path } => refresh::after_name(name, path, text),
        Waiting::RefreshWindows { session, path } => refresh::after_windows(session, path, text),
        Waiting::RefreshCount { session, path, count } => refresh::after_count(
            session,
            path,
            count,
            text,
        ),
        Waiting::SplitPath { args } => split_window::after_path(args, text),
        Waiting::SplitWindow { args, path } => split_window::after_window(args, path, text),
        _ => vstd::pervasive::unreached(),
    }
}

/// The step that an answer leads to.
pub fn resume(waiting: Waiting, reply: Reply) -> (r: Step)
    requires
        accepts(waiting@, reply@),
    ensures
        r@ == next_step(waiting@, reply@),
{
    match (waiting, reply) {
        (waiting, Reply::Output(output)) => resume_output(waiting, output),
        (Waiting::PickChoice(pick), Reply::Selection(choice)) => pick::after_choice(pick, choice),
        (Waiting::ConfigPath { config, args, paths, found }, Reply::Canonical(canonical)) => {
            assert(search_path_views(paths@).len() == paths@.len());
            configure::after_path(config, args, paths, found, canonical)
        },
        (Waiting::ConfigSaved, Reply::Saved(saved)) => configure::after_saved(saved),
        (Waiting::RefreshOpened { session, path, existing }, Reply::Opened(opened)) =>
            refresh::after_opened(session, path, existing, opened),
        (Waiting::RefreshWorktrees { session, path, existing }, Reply::Worktrees(names)) =>
            refresh::after_worktrees(session, path, existing, names),
        (
            Waiting::RefreshWorktree { session, path, existing, names, at, count },
            Reply::Worktree(worktree),
        ) => {
            assert(views(names@).len() == names@.len());
            refresh::after_worktree(session, path, existing, names, at, count, worktree)
        },
        (Waiting::RefreshBare { session, path, count }, Reply::Bare(bare)) => refresh::after_bare(
            session,
            path,
            count,
            bare,
        ),
        (Waiting::SplitOpened { kept, window }, Reply::Opened(opened)) =>
            split_window::after_opened(kept, window, opened),
        (Waiting::SplitRepository { kept, window }, Reply::RepositoryPath(path)) =>
            split_window::after_repository(kept, window, path),
        (Waiting::SplitWorktree { kept, fallback }, Reply::Worktree(worktree)) =>
            split_window::after_worktree(kept, fallback, worktree),
        _ => vstd::pervasive::unreached(),
    }
}

} // verus!
