//! The conversation between the library, which decides, and its caller, which acts: effects that
//! are carried out in order, questions whose answers decide what comes next, and the outcome.

use crate::config::{opt_view, Config, ConfigView, SearchDirectory};
use crate::expansion::{Missing, MissingView};
use crate::request::{ConfigArgs, ConfigArgsView};
use crate::text::views;
use std::path::PathBuf;
use vstd::prelude::*;

verus! {

/// Why a run failed.
#[derive(Clone, Copy, PartialEq, Eq, Structural, Debug)]
pub enum TmsError {
    /// The configuration could not be read or written.
    ConfigError,
    /// A path could not be expanded or resolved.
    IoError,
    /// A worktree that `git` lists could not be found.
    GitError,
    /// A path is not valid UTF-8.
    NonUtf8Path,
    /// The user's choice could not be obtained.
    SelectionError,
}

/// How a run failed: the error, and the variable that a path refers to and that is missing, where that
/// is the cause.
#[derive(Debug)]
pub struct Failure {
    pub error: TmsError,
    pub missing: Option<Missing>,
}

/// Whether a subcommand was given and has been dealt with; if not, the configuration, for what the
/// program does without one.
pub enum SubCommandGiven {
    Yes,
    No(Config),
}

/// Something to do, whose result does not matter.
pub enum Effect {
    /// Run this `tmux` command line.
    Tmux(String),
    /// Run this program with these arguments.
    Run(String, Vec<String>),
    /// Print this line.
    Print(String),
    /// Wait for this many milliseconds.
    Sleep(u64),
}

/// A question to the outside.
pub enum Query {
    /// What does this `tmux` command line print?
    TmuxOutput(String),
    /// Which of these does the user choose? The second string is the command that previews one.
    Select(Vec<String>, String),
    /// What is the canonical form of this path?
    Canonicalize(String),
    /// Can this configuration be stored?
    SaveConfig(Config),
    /// Is there a repository at this path?
    OpenRepository(String),
    /// Which worktrees does the open repository have?
    Worktrees,
    /// Is the open repository bare?
    Bare,
    /// Where is the open repository?
    RepositoryPath,
    /// What is known of this worktree of the open repository?
    Worktree(String),
}

/// What is known of a worktree.
pub struct Worktree {
    /// Whether it can be pruned; `None` if that cannot be told.
    pub prunable: Option<bool>,
    /// Where it is; `None` if the path is not valid UTF-8.
    pub path: Option<String>,
}

/// The answer to a query.
pub enum Reply {
    /// The standard output of a command.
    Output(Vec<u8>),
    /// The user's choice, if one was made.
    Selection(Result<Option<String>, TmsError>),
    /// The canonical path, if there is one.
    Canonical(Option<PathBuf>),
    /// Whether the configuration was stored.
    Saved(bool),
    /// Whether a repository was opened.
    Opened(bool),
    /// The names of the worktrees, if they can be listed; `None` for a name that is not valid UTF-8.
    Worktrees(Option<Vec<Option<String>>>),
    /// Whether the repository is bare.
    Bare(bool),
    /// The path of the repository; `None` if it is not valid UTF-8.
    RepositoryPath(Option<String>),
    /// What is known of the worktree, if it was found.
    Worktree(Option<Worktree>),
}

/// What the user picks from a list.
#[derive(Clone, Copy, PartialEq, Eq, Structural)]
pub enum Pick {
    Session,
    Window,
}

/// A directory to search, not yet resolved, and how deep.
pub struct SearchPath {
    pub path: String,
    pub depth: usize,
}

/// What has been learnt so far, while the answer to a query is awaited.
#[allow(inconsistent_fields)]
pub enum Waiting {
    PickList(Pick),
    PickChoice(Pick),
    ConfigPath {
        config: Config,
        args: ConfigArgs,
        paths: Vec<SearchPath>,
        found: Vec<SearchDirectory>,
    },
    ConfigSaved,
    KillCurrent { default: Option<String> },
    KillList { default: Option<String>, current: String },
    SessionsCurrent,
    SessionsList { current: String },
    RenameCurrent { name: String },
    RenamePanes { name: String, current: String },
    RefreshPath { name: Option<String> },
    RefreshName { name: Option<String>, path: String },
    RefreshWindows { session: String, path: String },
    RefreshOpened { session: String, path: String, existing: Vec<String> },
    RefreshWorktrees { session: String, path: String, existing: Vec<String> },
    RefreshWorktree {
        session: String,
        path: String,
        existing: Vec<String>,
        names: Vec<String>,
        at: usize,
        count: usize,
    },
    RefreshBare { session: String, path: String, count: usize },
    RefreshCount { session: String, path: String, count: usize },
    SplitPath { args: Vec<String> },
    SplitWindow { args: Vec<String>, path: String },
    SplitOpened { kept: Vec<String>, window: String },
    SplitRepository { kept: Vec<String>, window: String },
    SplitWorktree { kept: Vec<String>, fallback: Option<String> },
}

/// What comes after the effects of a step.
pub enum Next {
    /// Ask this, and go on with the answer.
    Ask(Query, Waiting),
    /// The run is over.
    Finish(Result<SubCommandGiven, Failure>),
}

/// One step of a run.
pub struct Step {
    pub effects: Vec<Effect>,
    pub next: Next,
}

pub struct FailureView {
    pub error: TmsError,
    pub missing: Option<MissingView>,
}

pub enum SubCommandGivenView {
    Yes,
    No(ConfigView),
}

pub enum EffectView {
    Tmux(Seq<char>),
    Run(Seq<char>, Seq<Seq<char>>),
    Print(Seq<char>),
    Sleep(u64),
}

pub enum QueryView {
    TmuxOutput(Seq<char>),
    Select(Seq<Seq<char>>, Seq<char>),
    Canonicalize(Seq<char>),
    SaveConfig(ConfigView),
    OpenRepository(Seq<char>),
    Worktrees,
    Bare,
    RepositoryPath,
    Worktree(Seq<char>),
}

pub struct WorktreeView {
    pub prunable: Option<bool>,
    pub path: Option<Seq<char>>,
}

pub enum ReplyView {
    Output(Seq<u8>),
    Selection(Result<Option<Seq<char>>, TmsError>),
    Canonical(Option<PathBuf>),
    Saved(bool),
    Opened(bool),
    Worktrees(Option<Seq<Option<Seq<char>>>>),
    Bare(bool),
    RepositoryPath(Option<Seq<char>>),
    Worktree(Option<WorktreeView>),
}

pub struct SearchPathView {
    pub path: Seq<char>,
    pub depth: usize,
}

#[allow(inconsistent_fields)]
pub enum WaitingView {
    PickList(Pick),
    PickChoice(Pick),
    ConfigPath {
        config: ConfigView,
        args: ConfigArgsView,
        paths: Seq<SearchPathView>,
        found: Seq<SearchDirectory>,
    },
    ConfigSaved,
    KillCurrent { default: Option<Seq<char>> },
    KillList { default: Option<Seq<char>>, current: Seq<char> },
    SessionsCurrent,
    SessionsList { current: Seq<char> },
    RenameCurrent { name: Seq<char> },
    RenamePanes { name: Seq<char>, current: Seq<char> },
    RefreshPath { name: Option<Seq<char>> },
    RefreshName { name: Option<Seq<char>>, path: Seq<char> },
    RefreshWindows { session: Seq<char>, path: Seq<char> },
    RefreshOpened { session: Seq<char>, path: Seq<char>, existing: Seq<Seq<char>> },
    RefreshWorktrees { session: Seq<char>, path: Seq<char>, existing: Seq<Seq<char>> },
    RefreshWorktree {
        session: Seq<char>,
        path: Seq<char>,
        existing: Seq<Seq<char>>,
        names: Seq<Seq<char>>,
        at: nat,
        count: nat,
    },
    RefreshBare { session: Seq<char>, path: Seq<char>, count: nat },
    RefreshCount { session: Seq<char>, path: Seq<char>, count: nat },
    SplitPath { args: Seq<Seq<char>> },
    SplitWindow { args: Seq<Seq<char>>, path: Seq<char> },
    SplitOpened { kept: Seq<Seq<char>>, window: Seq<char> },
    SplitRepository { kept: Seq<Seq<char>>, window: Seq<char> },
    SplitWorktree { kept: Seq<Seq<char>>, fallback: Option<Seq<char>> },
}

pub enum NextView {
    Ask(QueryView, WaitingView),
    Finish(Result<SubCommandGivenView, FailureView>),
}

pub struct StepView {
    pub effects: Seq<EffectView>,
    pub next: NextView,
}

impl View for Failure {
    type V = FailureView;

    open spec fn view(&self) -> FailureView {
        FailureView {
            error: self.error,
            missing: match self.missing {
                Some(missing) => Some(missing@),
                None => None,
            },
        }
    }
}

impl View for SubCommandGiven {
    type V = SubCommandGivenView;

    open spec fn view(&self) -> SubCommandGivenView {
        match self {
            SubCommandGiven::Yes => SubCommandGivenView::Yes,
            SubCommandGiven::No(config) => SubCommandGivenView::No(config@),
        }
    }
}

impl View for Effect {
    type V = EffectView;

    open spec fn view(&self) -> EffectView {
        match self {
            Effect::Tmux(command) => EffectView::Tmux(command@),
            Effect::Run(program, args) => EffectView::Run(program@, views(args@)),
            Effect::Print(line) => EffectView::Print(line@),
            Effect::Sleep(millis) => EffectView::Sleep(*millis),
        }
    }
}

impl View for Query {
    type V = QueryView;

    open spec fn view(&self) -> QueryView {
        match self {
            Query::TmuxOutput(command) => QueryView::TmuxOutput(command@),
            Query::Select(choices, preview) => QueryView::Select(views(choices@), preview@),
            Query::Canonicalize(path) => QueryView::Canonicalize(path@),
            Query::SaveConfig(config) => QueryView::SaveConfig(config@),
            Query::OpenRepository(path) => QueryView::OpenRepository(path@),
            Query::Worktrees => QueryView::Worktrees,
            Query::Bare => QueryView::Bare,
            Query::RepositoryPath => QueryView::RepositoryPath,
            Query::Worktree(name) => QueryView::Worktree(name@),
        }
    }
}

impl View for Worktree {
    type V = WorktreeView;

    open spec fn view(&self) -> WorktreeView {
        WorktreeView { prunable: self.prunable, path: opt_view(self.path) }
    }
}

/// The views of a list of optional strings.
pub open spec fn name_views(names: Seq<Option<String>>) -> Seq<Option<Seq<char>>> {
    names.map_values(|name: Option<String>| opt_view(name))
}

impl View for Reply {
    type V = ReplyView;

    open spec fn view(&self) -> ReplyView {
        match self {
            Reply::Output(bytes) => ReplyView::Output(bytes@),
            Reply::Selection(choice) => ReplyView::Selection(
                match choice {
                    Ok(chosen) => Ok(opt_view(*chosen)),
                    Err(e) => Err(*e),
                },
            ),
            Reply::Canonical(path) => ReplyView::Canonical(*path),
            Reply::Saved(ok) => ReplyView::Saved(*ok),
            Reply::Opened(ok) => ReplyView::Opened(*ok),
            Reply::Worktrees(names) => ReplyView::Worktrees(
                match names {
                    Some(names) => Some(name_views(names@)),
                    None => None,
                },
            ),
            Reply::Bare(bare) => ReplyView::Bare(*bare),
            Reply::RepositoryPath(path) => ReplyView::RepositoryPath(opt_view(*path)),
            Reply::Worktree(worktree) => ReplyView::Worktree(
                match worktree {
                    Some(worktree) => Some(worktree@),
                    None => None,
                },
            ),
        }
    }
}

impl View for SearchPath {
    type V = SearchPathView;

    open spec fn view(&self) -> SearchPathView {
        SearchPathView { path: self.path@, depth: self.depth }
    }
}

/// The views of a list of search paths.
pub open spec fn search_path_views(paths: Seq<SearchPath>) -> Seq<SearchPathView> {
    paths.map_values(|p: SearchPath| p@)
}

impl View for Waiting {
    type V = WaitingView;

    open spec fn view(&self) -> WaitingView {
        match self {
            Waiting::PickList(pick) => WaitingView::PickList(*pick),
            Waiting::PickChoice(pick) => WaitingView::PickChoice(*pick),
            Waiting::ConfigPath { config, args, paths, found } => WaitingView::ConfigPath {
                config: config@,
                args: args@,
                paths: search_path_views(paths@),
                found: found@,
            },
            Waiting::ConfigSaved => WaitingView::ConfigSaved,
            Waiting::KillCurrent { default } => WaitingView::KillCurrent {
                default: opt_view(*default),
            },
            Waiting::KillList { default, current } => WaitingView::KillList {
                default: opt_view(*default),
                current: current@,
            },
            Waiting::SessionsCurrent => WaitingView::SessionsCurrent,
            Waiting::SessionsList { current } => WaitingView::SessionsList { current: current@ },
            Waiting::RenameCurrent { name } => WaitingView::RenameCurrent { name: name@ },
            Waiting::RenamePanes { name, current } => WaitingView::RenamePanes {
                name: name@,
                current: current@,
            },
            Waiting::RefreshPath { name } => WaitingView::RefreshPath { name: opt_view(*name) },
            Waiting::RefreshName { name, path } => WaitingView::RefreshName {
                name: opt_view(*name),
                path: path@,
            },
            Waiting::RefreshWindows { session, path } => WaitingView::RefreshWindows {
                session: session@,
                path: path@,
            },
            Waiting::RefreshOpened { session, path, existing } => WaitingView::RefreshOpened {
                session: session@,
                path: path@,
                existing: views(existing@),
            },
            Waiting::RefreshWorktrees { session, path, existing } => WaitingView::RefreshWorktrees {
                session: session@,
                path: path@,
                existing: views(existing@),
            },
            Waiting::RefreshWorktree { session, path, existing, names, at, count } =>
                WaitingView::RefreshWorktree {
                session: session@,
                path: path@,
                existing: views(existing@),
                names: views(names@),
                at: *at as nat,
                count: *count as nat,
            },
            Waiting::RefreshBare { session, path, count } => WaitingView::RefreshBare {
                session: session@,
                path: path@,
                count: *count as nat,
            },
            Waiting::RefreshCount { session, path, count } => WaitingView::RefreshCount {
                session: session@,
                path: path@,
                count: *count as nat,
            },
            Waiting::SplitPath { args } => WaitingView::SplitPath { args: views(args@) },
            Waiting::SplitWindow { args, path } => WaitingView::SplitWindow {
                args: views(args@),
                path: path@,
            },
            Waiting::SplitOpened { kept, window } => WaitingView::SplitOpened {
                kept: views(kept@),
                window: window@,
            },
            Waiting::SplitRepository { kept, window } => WaitingView::SplitRepository {
                kept: views(kept@),
                window: window@,
            },
            Waiting::SplitWorktree { kept, fallback } => WaitingView::SplitWorktree {
                kept: views(kept@),
                fallback: opt_view(*fallback),
            },
        }
    }
}

impl View for Next {
    type V = NextView;

    open spec fn view(&self) -> NextView {
        match self {
            Next::Ask(query, waiting) => NextView::Ask(query@, waiting@),
            Next::Finish(outcome) => NextView::Finish(
                match outcome {
                    Ok(given) => Ok(given@),
                    Err(failure) => Err(failure@),
                },
            ),
        }
    }
}

/// The views of a list of effects.
pub open spec fn effect_views(effects: Seq<Effect>) -> Seq<EffectView> {
    effects.map_values(|e: Effect| e@)
}

impl View for Step {
    type V = StepView;

    open spec fn view(&self) -> StepView {
        StepView { effects: effect_views(self.effects@), next: self.next@ }
    }
}

/// The step that does nothing but ask.
pub open spec fn asking(query: QueryView, waiting: WaitingView) -> StepView {
    StepView { effects: Seq::<EffectView>::empty(), next: NextView::Ask(query, waiting) }
}

/// The step that asks what a `tmux` command line prints.
pub open spec fn asking_tmux(command: Seq<char>, waiting: WaitingView) -> StepView {
    asking(QueryView::TmuxOutput(command), waiting)
}

/// The step that carries out `effects` and ends the run, the subcommand being dealt with.
pub open spec fn done(effects: Seq<EffectView>) -> StepView {
    StepView { effects, next: NextView::Finish(Ok(SubCommandGivenView::Yes)) }
}

/// The failure that is `error` and no more.
pub open spec fn only(error: TmsError) -> FailureView {
    FailureView { error, missing: None }
}

/// The failure of an expansion.
pub open spec fn not_found(missing: MissingView) -> FailureView {
    FailureView { error: TmsError::IoError, missing: Some(missing) }
}

/// The step that carries out `effects` and ends the run with a failure.
pub open spec fn failed(effects: Seq<EffectView>, failure: FailureView) -> StepView {
    StepView { effects, next: NextView::Finish(Err(failure)) }
}

/// Does nothing but ask.
pub fn ask(query: Query, waiting: Waiting) -> (r: Step)
    ensures
        r@ == asking(query@, waiting@),
{
    let effects: Vec<Effect> = Vec::new();
    assert(effect_views(effects@) =~= Seq::<EffectView>::empty());
    Step { effects, next: Next::Ask(query, waiting) }
}

/// Asks what a `tmux` command line prints.
pub fn ask_tmux(command: &str, waiting: Waiting) -> (r: Step)
    ensures
        r@ == asking_tmux(command@, waiting@),
{
    ask(Query::TmuxOutput(command.to_owned()), waiting)
}

/// Carries out `effects` and ends the run.
pub fn finish(effects: Vec<Effect>) -> (r: Step)
    ensures
        r@ == done(effect_views(effects@)),
{
    Step { effects, next: Next::Finish(Ok(SubCommandGiven::Yes)) }
}

/// Ends the run with an error.
pub fn fail(error: TmsError) -> (r: Step)
    ensures
        r@ == failed(Seq::<EffectView>::empty(), only(error)),
{
    let effects: Vec<Effect> = Vec::new();
    assert(effect_views(effects@) =~= Seq::<EffectView>::empty());
    Step { effects, next: Next::Finish(Err(Failure { error, missing: None })) }
}

/// Ends the run after `effects`, a path referring to a variable that is missing.
pub fn fail_on(effects: Vec<Effect>, missing: Missing) -> (r: Step)
    ensures
        r@ == failed(effect_views(effects@), not_found(missing@)),
{
    let failure = Failure { error: TmsError::IoError, missing: Some(missing) };
    Step { effects, next: Next::Finish(Err(failure)) }
}

} // verus!
