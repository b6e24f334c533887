//! `split-window`: what `tmux split-window` does, but with the worktree of the current window as the
//! directory to start in, unless the caller gives one.

use crate::config::opt_view;
use crate::protocol::{
    ask, ask_tmux, asking, asking_tmux, done, effect_views, finish, Effect, EffectView, Query,
    QueryView, Step, StepView, Waiting, WaitingView, Worktree, WorktreeView,
};
use crate::text::{remove_char, same_text, trim, trimmed, views, without};
use vstd::prelude::*;

verus! {

/// A value that `tmux display-message` printed, without the white space around it and the quotes.
pub open spec fn shown_value(output: Seq<char>) -> Seq<char> {
    without(trimmed(output), '\'')
}

/// The arguments without each `-c` and the value that follows it.
pub open spec fn kept_args(args: Seq<Seq<char>>) -> Seq<Seq<char>>
    decreases args.len(),
{
    if args.len() == 0 {
        args
    } else if args[0] != "-c"@ {
        seq![args[0]] + kept_args(args.drop_first())
    } else if args.len() == 1 {
        Seq::<Seq<char>>::empty()
    } else {
        kept_args(args.skip(2))
    }
}

/// The directory that the arguments give: the value of the last `-c` that has one.
pub open spec fn given_directory(args: Seq<Seq<char>>) -> Option<Seq<char>>
    decreases args.len(),
{
    if args.len() == 0 {
        None
    } else if args[0] != "-c"@ {
        given_directory(args.drop_first())
    } else if args.len() == 1 {
        None
    } else {
        match given_directory(args.skip(2)) {
            Some(directory) => Some(directory),
            None => Some(args[1]),
        }
    }
}

/// Runs `tmux split-window` with the arguments `kept`, in `directory`.
pub open spec fn split_in(kept: Seq<Seq<char>>, directory: Option<Seq<char>>) -> StepView {
    let args = seq!["split-window"@] + kept + match directory {
        Some(directory) => seq!["-c"@, directory],
        None => Seq::<Seq<char>>::empty(),
    };
    done(seq![EffectView::Run("tmux"@, args)])
}

/// The first step: ask where the current session is.
pub open spec fn split_begin(args: Seq<Seq<char>>) -> StepView {
    asking_tmux("tmux display-message -p '#{session_path}'"@, WaitingView::SplitPath { args })
}

/// With the session's path known: ask for the current window.
pub open spec fn split_after_path(args: Seq<Seq<char>>, output: Seq<char>) -> StepView {
    asking_tmux(
        "tmux display-message -p '#{window_name}'"@,
        WaitingView::SplitWindow { args, path: shown_value(output) },
    )
}

/// With the current window known: split where a directory is given, otherwise look for the
/// repository of the session.
pub open spec fn split_after_window(
    args: Seq<Seq<char>>,
    path: Seq<char>,
    output: Seq<char>,
) -> StepView {
    if given_directory(args) is Some {
        split_in(kept_args(args), given_directory(args))
    } else {
        asking(
            QueryView::OpenRepository(path),
            WaitingView::SplitOpened { kept: kept_args(args), window: shown_value(output) },
        )
    }
}

/// Without a repository there is no directory to start in; with one, ask where it is.
pub open spec fn split_after_opened(
    kept: Seq<Seq<char>>,
    window: Seq<char>,
    opened: bool,
) -> StepView {
    if opened {
        asking(QueryView::RepositoryPath, WaitingView::SplitRepository { kept, window })
    } else {
        split_in(kept, None)
    }
}

/// With the repository known: ask for the worktree that is called like the window.
pub open spec fn split_after_repository(
    kept: Seq<Seq<char>>,
    window: Seq<char>,
    path: Option<Seq<char>>,
) -> StepView {
    asking(QueryView::Worktree(window), WaitingView::SplitWorktree { kept, fallback: path })
}

/// Starts in the worktree, where there is one, otherwise in the repository.
pub open spec fn split_after_worktree(
    kept: Seq<Seq<char>>,
    fallback: Option<Seq<char>>,
    worktree: Option<WorktreeView>,
) -> StepView {
    match worktree {
        Some(worktree) => split_in(kept, worktree.path),
        None => split_in(kept, fallback),
    }
}

/// A value that `tmux display-message` printed.
pub fn read_value(output: &str) -> (r: String)
    ensures
        r@ == shown_value(output@),
{
    let bare = trim(output);
    remove_char(bare.as_str(), '\'')
}

/// Takes each `-c` and its value out of the arguments; hands back the others, and the last value.
pub fn filter_args(args: &Vec<String>) -> (r: (Vec<String>, Option<String>))
    ensures
        views(r.0@) == kept_args(views(args@)),
        opt_view(r.1) == given_directory(views(args@)),
{
    let ghost all = views(args@);
    let mut kept: Vec<String> = Vec::new();
    let mut directory: Option<String> = None;
    let mut i: usize = 0;
    assert(all.skip(0) =~= all);
    assert(views(kept@) + kept_args(all) =~= kept_args(all));
    while i < args.len()
        invariant
            i <= args.len(),
            all == views(args@),
            views(kept@) + kept_args(all.skip(i as int)) == kept_args(all),
            given_directory(all) == (match given_directory(all.skip(i as int)) {
                Some(later) => Some(later),
                None => opt_view(directory),
            }),
        decreases args.len() - i,
    {
        let ghost rest = all.skip(i as int);
        let ghost before = views(kept@);
        assert(rest[0] == args@[i as int]@);
        assert(rest.drop_first() =~= all.skip(i + 1));
        if !same_text(args[i].as_str(), "-c") {
            kept.push(args[i].clone());
            assert(views(kept@) =~= before.push(rest[0]));
            i += 1;
            assert(views(kept@) + kept_args(all.skip(i as int)) =~= before + kept_args(rest));
        } else if args.len() - i == 1 {
            i += 1;
            assert(kept_args(all.skip(i as int)) =~= Seq::<Seq<char>>::empty());
        } else {
            assert(rest.skip(2) =~= all.skip(i + 2));
            assert(rest[1] == args@[i + 1]@);
            directory = Some(args[i + 1].clone());
            i += 2;
        }
    }
    assert(kept_args(all.skip(i as int)) =~= Seq::<Seq<char>>::empty());
    assert(views(kept@) =~= kept_args(all));
    (kept, directory)
}

/// Runs `tmux split-window`.
pub fn split(kept: Vec<String>, directory: Option<String>) -> (r: Step)
    ensures
        r@ == split_in(views(kept@), opt_view(directory)),
{
    let mut args: Vec<String> = Vec::new();
    args.push("split-window".to_owned());
    assert(views(args@) =~= seq!["split-window"@] + views(kept@).take(0));
    let mut i: usize = 0;
    while i < kept.len()
        invariant
            i <= kept.len(),
            views(args@) == seq!["split-window"@] + views(kept@).take(i as int),
        decreases kept.len() - i,
    {
        let ghost before = views(args@);
        args.push(kept[i].clone());
        assert(views(args@) =~= before.push(kept@[i as int]@));
        assert(views(kept@).take(i + 1) =~= views(kept@).take(i as int).push(kept@[i as int]@));
        i += 1;
    }
    assert(views(kept@).take(i as int) =~= views(kept@));
    let ghost before = views(args@);
    if let Some(directory) = directory {
        args.push("-c".to_owned());
        args.push(directory);
        assert(views(args@) =~= before + seq!["-c"@, directory@]);
    } else {
        assert(views(args@) =~= before + Seq::<Seq<char>>::empty());
    }
    let ghost all = views(args@);
    let mut effects: Vec<Effect> = Vec::new();
    effects.push(Effect::Run("tmux".to_owned(), args));
    assert(effect_views(effects@) =~= seq![EffectView::Run("tmux"@, all)]);
    finish(effects)
}

/// The first step of `split-window`.
pub fn begin(args: Vec<String>) -> (r: Step)
    ensures
        r@ == split_begin(views(args@)),
{
    ask_tmux("tmux display-message -p '#{session_path}'", Waiting::SplitPath { args })
}

/// Goes on when the session's path has been printed.
pub fn after_path(args: Vec<String>, output: &str) -> (r: Step)
    ensures
        r@ == split_after_path(views(args@), output@),
{
    ask_tmux(
        "tmux display-message -p '#{window_name}'",
        Waiting::SplitWindow { args, path: read_value(output) },
    )
}

/// Goes on when the current window has been printed.
pub fn after_window(args: Vec<String>, path: String, output: &str) -> (r: Step)
    ensures
        r@ == split_after_window(views(args@), path@, output@),
{
    let window = read_value(output);
    let (kept, directory) = filter_args(&args);
    match directory {
        Some(_) => split(kept, directory),
        None => ask(Query::OpenRepository(path), Waiting::SplitOpened { kept, window }),
    }
}

/// Goes on when it is known whether there is a repository.
pub fn after_opened(kept: Vec<String>, window: String, opened: bool) -> (r: Step)
    ensures
        r@ == split_after_opened(views(kept@), window@, opened),
{
    if opened {
        ask(Query::RepositoryPath, Waiting::SplitRepository { kept, window })
    } else {
        split(kept, None)
    }
}

/// Goes on when it is known where the repository is.
pub fn after_repository(kept: Vec<String>, window: String, path: Option<String>) -> (r: Step)
    ensures
        r@ == split_after_repository(views(kept@), window@, opt_view(path)),
{
    ask(Query::Worktree(window), Waiting::SplitWorktree { kept, fallback: path })
}

/// Goes on when it is known whether there is a worktree.
pub fn after_worktree(
    kept: Vec<String>,
    fallback: Option<String>,
    worktree: Option<Worktree>,
) -> (r: Step)
    ensures
        r@ == split_after_worktree(
            views(kept@),
            opt_view(fallback),
            match worktree {
                Some(worktree) => Some(worktree@),
                None => None,
            },
        ),
{
    match worktree {
        Some(worktree) => split(kept, worktree.path),
        None => split(kept, fallback),
    }
}

} // verus!
