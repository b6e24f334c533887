//! Laws of `split-window`: what it does, from its arguments and what `tmux` prints.

use crate::config::ConfigView;
use crate::expansion::EnvironmentView;
use crate::handle::begins;
use crate::laws::{
    law_split_in_given_directory, law_split_in_worktree, law_split_passes_on_the_rest, lemma_run_on,
    prints, run, RunView,
};
use crate::output_laws::{bare, law_value_is_read_back, shown_as};
use crate::protocol::{
    EffectView, NextView, QueryView, ReplyView, StepView, SubCommandGivenView, WorktreeView,
};
use crate::request::RequestView;
use crate::session_laws::only_asks;
use crate::split_window::{given_directory, kept_args, split_begin};
use vstd::prelude::*;

verus! {

/// `-c` and the value behind it are taken out of the arguments, wherever they stand; all others are
/// kept, in order. The last value given is the directory.
pub proof fn law_directory_is_taken_out(
    before: Seq<Seq<char>>,
    directory: Seq<char>,
    after: Seq<Seq<char>>,
)
    requires
        !before.contains("-c"@),
    ensures
        kept_args(before + seq!["-c"@, directory] + after) == before + kept_args(after),
        given_directory(before + seq!["-c"@, directory] + after) == match given_directory(after) {
            Some(later) => Some(later),
            None => Some(directory),
        },
        kept_args(before.push("-c"@)) == before,
        given_directory(before.push("-c"@)) is None,
    decreases before.len(),
{
    let option = seq!["-c"@, directory];
    let args = before + option + after;
    let bare_option = before.push("-c"@);
    if before.len() == 0 {
        assert(args.skip(2) =~= after);
        assert(args[0] == "-c"@ && args[1] == directory);
        assert(before + kept_args(after) =~= kept_args(after));
        assert(bare_option[0] == "-c"@);
        assert(kept_args(bare_option) =~= before);
    } else {
        let rest = before.drop_first();
        assert(before[0] != "-c"@);
        assert forall|i: int| 0 <= i < rest.len() implies rest[i] != "-c"@ by {
            assert(before[i + 1] != "-c"@);
        }
        law_directory_is_taken_out(rest, directory, after);
        assert(args[0] == before[0]);
        assert(args.drop_first() =~= rest + option + after);
        assert(seq![before[0]] + (rest + kept_args(after)) =~= before + kept_args(after));
        assert(bare_option[0] == before[0]);
        assert(bare_option.drop_first() =~= rest.push("-c"@));
        assert(seq![before[0]] + rest =~= before);
    }
}

/// Where `split-window` begins.
proof fn lemma_split_begins(
    config: ConfigView,
    environment: EnvironmentView,
    step: StepView,
    args: Seq<Seq<char>>,
)
    requires
        begins(RequestView::SplitWindow(args), config, environment, step),
    ensures
        step == split_begin(args),
{
}

/// What `split-window` asks of `tmux`.
proof fn lemma_split_asks(args: Seq<Seq<char>>, first: ReplyView, text: Seq<char>)
    requires
        prints(first, text),
    ensures
        only_asks(
            run(split_begin(args), Seq::<ReplyView>::empty()),
            "tmux display-message -p '#{session_path}'"@,
        ),
        only_asks(run(split_begin(args), seq![first]), "tmux display-message -p '#{window_name}'"@),
{
    lemma_run_on(split_begin(args), Seq::<ReplyView>::empty(), first);
    assert(seq![first] =~= Seq::<ReplyView>::empty().push(first));
}

/// With a directory among its arguments, `split-window` hands on all other arguments in order and the
/// directory behind them, and does nothing else.
pub proof fn law_split_with_directory(
    config: ConfigView,
    environment: EnvironmentView,
    step: StepView,
    before: Seq<Seq<char>>,
    directory: Seq<char>,
    after: Seq<Seq<char>>,
    first: ReplyView,
    path: Seq<char>,
    second: ReplyView,
    window: Seq<char>,
)
    requires
        !before.contains("-c"@),
        !after.contains("-c"@),
        begins(
            RequestView::SplitWindow(before + seq!["-c"@, directory] + after),
            config,
            environment,
            step,
        ),
        prints(first, path),
        prints(second, window),
    ensures
        only_asks(
            run(step, Seq::<ReplyView>::empty()),
            "tmux display-message -p '#{session_path}'"@,
        ),
        only_asks(run(step, seq![first]), "tmux display-message -p '#{window_name}'"@),
        run(step, seq![first, second]) == (RunView {
            effects: seq![
                EffectView::Run(
                    "tmux"@,
                    seq!["split-window"@] + before + after + seq!["-c"@, directory],
                ),
            ],
            next: NextView::Finish(Ok(SubCommandGivenView::Yes)),
        }),
{
    let args = before + seq!["-c"@, directory] + after;
    lemma_split_begins(config, environment, step, args);
    lemma_split_asks(args, first, path);
    law_directory_is_taken_out(before, directory, after);
    law_split_passes_on_the_rest(after);
    law_split_in_given_directory(args, first, path, second, window);
    assert(seq!["split-window"@] + (before + after) + seq!["-c"@, directory]
        =~= seq!["split-window"@] + before + after + seq!["-c"@, directory]);
}

/// What `tmux` is run with to split a window.
pub open spec fn splits(args: Seq<Seq<char>>, directory: Option<Seq<char>>) -> RunView {
    RunView {
        effects: seq![
            EffectView::Run(
                "tmux"@,
                match directory {
                    Some(directory) => seq!["split-window"@] + args + seq!["-c"@, directory],
                    None => seq!["split-window"@] + args,
                },
            ),
        ],
        next: NextView::Finish(Ok(SubCommandGivenView::Yes)),
    }
}

/// Without a directory among its arguments, `split-window` hands on all of them in order, and behind
/// them the directory of the worktree that is called like the window, in the repository at the path of
/// the session; the repository itself where there is no such worktree; and none where there is no
/// repository.
pub proof fn law_split_without_directory(
    config: ConfigView,
    environment: EnvironmentView,
    step: StepView,
    args: Seq<Seq<char>>,
    first: ReplyView,
    path: Seq<char>,
    path_quoted: bool,
    second: ReplyView,
    window: Seq<char>,
    window_quoted: bool,
    repository: Option<Seq<char>>,
    worktree: Option<WorktreeView>,
)
    requires
        !args.contains("-c"@),
        begins(RequestView::SplitWindow(args), config, environment, step),
        bare(path),
        !path.contains('\''),
        prints(first, shown_as(path, path_quoted)),
        bare(window),
        !window.contains('\''),
        prints(second, shown_as(window, window_quoted)),
    ensures
        run(step, seq![first, second]).next matches NextView::Ask(query, _) && query
            == QueryView::OpenRepository(path),
        run(
            step,
            seq![first, second, ReplyView::Opened(true), ReplyView::RepositoryPath(repository)],
        ).next matches NextView::Ask(query, _) && query == QueryView::Worktree(window),
        run(
            step,
            seq![
                first,
                second,
                ReplyView::Opened(true),
                ReplyView::RepositoryPath(repository),
                ReplyView::Worktree(worktree),
            ],
        ) == splits(
            args,
            match worktree {
                Some(worktree) => worktree.path,
                None => repository,
            },
        ),
        run(step, seq![first, second, ReplyView::Opened(false)]) == splits(args, None),
{
    let shown_path = shown_as(path, path_quoted);
    let shown_window = shown_as(window, window_quoted);
    lemma_split_begins(config, environment, step, args);
    law_value_is_read_back(path, path_quoted);
    law_value_is_read_back(window, window_quoted);
    law_split_passes_on_the_rest(args);
    law_split_in_worktree(
        args,
        first,
        shown_path,
        second,
        shown_window,
        repository,
        worktree,
    );
    assert(seq!["split-window"@] + args + Seq::<Seq<char>>::empty() =~= seq!["split-window"@]
        + args);
}

} // verus!
