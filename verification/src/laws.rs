//! Laws of the commands: what holds of them for every input, and of whole runs.

use crate::config::ConfigView;
use crate::configure::can_remove;
use crate::expansion::{EnvironmentView, MissingView};
use crate::handle::{accepts, begins, next_step};
use crate::kill::{current_name, jump_target, kill_begin};
use crate::list::{sessions_begin, status_line};
use crate::pick::{choices_in, go_command, pick_begin};
use crate::protocol::{
    done, failed, not_found, only, EffectView, NextView, Pick, QueryView, ReplyView, StepView,
    SubCommandGivenView, TmsError, WaitingView, WorktreeView,
};
use crate::rename::{
    change_directory, cwd_of, lists_panes, moved_cwd, panes_in, rename_begin, rename_effects,
    PaneView,
};
use crate::request::RequestView;
use crate::split_window::{given_directory, kept_args, shown_value, split_begin};
use crate::text::{
    char_replaced, lemma_pieces_nonempty, lines_of, pieces, replaced, trimmed, without,
};
use crate::text_laws::{
    filled_pieces, law_all_pieces_filled, law_char_replaced, law_closing_up_keeps_filled_pieces,
    law_closing_up_leaves_no_pair, law_pieces_clean, law_replaced_by_itself, law_trimmed,
    law_trimming_keeps_filled_pieces, law_without, no_three, tight,
};
use vstd::prelude::*;
use vstd::utf8::{decode_utf8, valid_utf8};

verus! {

/// A run after some of its answers: the effects so far, and what comes next.
pub struct RunView {
    pub effects: Seq<EffectView>,
    pub next: NextView,
}

/// The run that begins with `step` and is given `replies`.
pub open spec fn run(step: StepView, replies: Seq<ReplyView>) -> RunView
    decreases replies.len(),
{
    if replies.len() == 0 {
        RunView { effects: step.effects, next: step.next }
    } else {
        let before = run(step, replies.drop_last());
        match before.next {
            NextView::Finish(_) => before,
            NextView::Ask(_, waiting) => {
                let after = next_step(waiting, replies.last());
                RunView { effects: before.effects + after.effects, next: after.next }
            },
        }
    }
}

/// The run has ended well.
pub open spec fn ended(effects: Seq<EffectView>) -> RunView {
    RunView { effects, next: NextView::Finish(Ok(SubCommandGivenView::Yes)) }
}

/// The output of a command that prints `text`.
pub open spec fn prints(reply: ReplyView, text: Seq<char>) -> bool {
    reply matches ReplyView::Output(bytes) && valid_utf8(bytes) && decode_utf8(bytes) == text
}

/// One more answer takes a run one step on.
pub proof fn lemma_run_on(step: StepView, replies: Seq<ReplyView>, reply: ReplyView)
    ensures
        ({
            let before = run(step, replies);
            let after = run(step, replies.push(reply));
            match before.next {
                NextView::Finish(_) => after == before,
                NextView::Ask(_, waiting) => after.effects == before.effects + next_step(
                    waiting,
                    reply,
                ).effects && after.next == next_step(waiting, reply).next,
            }
        }),
{
    assert(replies.push(reply).drop_last() =~= replies);
}

/// How the steps that end a run look: one that is dealt with ends well, and one that fails ends with
/// its error, and with the variable that is missing where that is the cause.
pub proof fn law_ends(effects: Seq<EffectView>, error: TmsError, missing: MissingView)
    ensures
        done(effects).effects == effects,
        done(effects).next == NextView::Finish(Ok(SubCommandGivenView::Yes)),
        failed(effects, only(error)).effects == effects,
        failed(effects, only(error)).next matches NextView::Finish(Err(failure)) && failure.error
            == error && failure.missing is None,
        failed(effects, not_found(missing)).effects == effects,
        failed(effects, not_found(missing)).next matches NextView::Finish(Err(failure))
            && failure.error == TmsError::IoError && failure.missing == Some(missing),
{
}

/// What `waiting` waits for is the answer to `query`, and what it holds is consistent.
pub open spec fn asks(query: QueryView, waiting: WaitingView) -> bool {
    match waiting {
        WaitingView::PickChoice(_) => query is Select,
        WaitingView::ConfigPath { paths, found, .. } => found.len() < paths.len() && query
            == QueryView::Canonicalize(paths[found.len() as int].path),
        WaitingView::ConfigSaved => query is SaveConfig,
        WaitingView::RefreshOpened { path, .. } => query == QueryView::OpenRepository(path),
        WaitingView::RefreshWorktrees { .. } => query is Worktrees,
        WaitingView::RefreshWorktree { names, at, count, .. } => at < names.len() && count <= at
            && query == QueryView::Worktree(names[at as int]),
        WaitingView::RefreshBare { .. } => query is Bare,
        WaitingView::SplitOpened { .. } => query is OpenRepository,
        WaitingView::SplitRepository { .. } => query is RepositoryPath,
        WaitingView::SplitWorktree { .. } => query is Worktree,
        _ => query is TmuxOutput,
    }
}

/// `reply` answers `query`.
pub open spec fn answers(query: QueryView, reply: ReplyView) -> bool {
    match query {
        QueryView::TmuxOutput(_) => reply matches ReplyView::Output(bytes) && valid_utf8(bytes),
        QueryView::Select(_, _) => reply is Selection,
        QueryView::Canonicalize(_) => reply is Canonical,
        QueryView::SaveConfig(_) => reply is Saved,
        QueryView::OpenRepository(_) => reply is Opened,
        QueryView::Worktrees => reply is Worktrees,
        QueryView::Bare => reply is Bare,
        QueryView::RepositoryPath => reply is RepositoryPath,
        QueryView::Worktree(_) => reply is Worktree,
    }
}

/// The three answers that a run cannot go on with, though they are of the right kind: no session is
/// listed where one to jump to is sought, a line does not describe a pane, or directories are to be
/// removed where none are excluded.
pub open spec fn unusable(waiting: WaitingView, reply: ReplyView) -> bool {
    match waiting {
        WaitingView::KillList { .. } => lines_of(decode_utf8(reply->Output_0)).len() == 0,
        WaitingView::RenamePanes { .. } => !lists_panes(decode_utf8(reply->Output_0)),
        WaitingView::ConfigPath { config, args, paths, found } => reply->Canonical_0 is Some
            && found.len() + 1 == paths.len() && !can_remove(config, args),
        _ => false,
    }
}

/// A first step asks consistently.
pub proof fn law_first_question(
    request: RequestView,
    config: ConfigView,
    environment: EnvironmentView,
    step: StepView,
)
    requires
        begins(request, config, environment, step),
    ensures
        step.next matches NextView::Ask(query, waiting) ==> asks(query, waiting),
{
}

/// Whatever is asked later is asked consistently too.
pub proof fn law_next_question(query: QueryView, waiting: WaitingView, reply: ReplyView)
    requires
        asks(query, waiting),
        accepts(waiting, reply),
    ensures
        next_step(waiting, reply).next matches NextView::Ask(query, waiting) ==> asks(
            query,
            waiting,
        ),
{
}

/// A run goes on with every answer to its question but the unusable ones.
pub proof fn law_answers_are_accepted(query: QueryView, waiting: WaitingView, reply: ReplyView)
    requires
        asks(query, waiting),
        answers(query, reply),
    ensures
        accepts(waiting, reply) <==> !unusable(waiting, reply),
{
}

/// How far a run is from its end: first the stage, then what is left to do in it.
pub open spec fn stage(waiting: WaitingView) -> (nat, nat) {
    match waiting {
        WaitingView::PickList(_) => (2, 0),
        WaitingView::PickChoice(_) => (1, 0),
        WaitingView::ConfigPath { paths, found, .. } => (2, (paths.len() - found.len()) as nat),
        WaitingView::ConfigSaved => (1, 0),
        WaitingView::KillCurrent { .. } => (2, 0),
        WaitingView::KillList { .. } => (1, 0),
        WaitingView::SessionsCurrent => (2, 0),
        WaitingView::SessionsList { .. } => (1, 0),
        WaitingView::RenameCurrent { .. } => (2, 0),
        WaitingView::RenamePanes { .. } => (1, 0),
        WaitingView::RefreshPath { .. } => (8, 0),
        WaitingView::RefreshName { .. } => (7, 0),
        WaitingView::RefreshWindows { .. } => (6, 0),
        WaitingView::RefreshOpened { .. } => (5, 0),
        WaitingView::RefreshWorktrees { .. } => (4, 0),
        WaitingView::RefreshWorktree { names, at, .. } => (3, (names.len() - at) as nat),
        WaitingView::RefreshBare { .. } => (2, 0),
        WaitingView::RefreshCount { .. } => (1, 0),
        WaitingView::SplitPath { .. } => (5, 0),
        WaitingView::SplitWindow { .. } => (4, 0),
        WaitingView::SplitOpened { .. } => (3, 0),
        WaitingView::SplitRepository { .. } => (2, 0),
        WaitingView::SplitWorktree { .. } => (1, 0),
    }
}

/// Every answer brings a run nearer to its end, so every run ends.
pub proof fn law_runs_end(waiting: WaitingView, reply: ReplyView)
    requires
        accepts(waiting, reply),
    ensures
        next_step(waiting, reply).next matches NextView::Ask(_, later) ==> stage(later).0 < stage(
            waiting,
        ).0 || (stage(later).0 == stage(waiting).0 && stage(later).1 < stage(waiting).1),
{
}

/// The configuration is handed back if and only if there is no subcommand to deal with, and then at
/// once, unchanged and without any effect.
pub proof fn law_configuration_is_handed_back(
    request: RequestView,
    config: ConfigView,
    environment: EnvironmentView,
    step: StepView,
)
    requires
        begins(request, config, environment, step),
    ensures
        request is Other <==> step.next matches NextView::Finish(Ok(SubCommandGivenView::No(_))),
        request is Other ==> step.effects.len() == 0 && step.next == NextView::Finish(
            Ok(SubCommandGivenView::No(config)),
        ),
{
}

/// A subcommand that has asked something ends as dealt with, or with an error.
pub proof fn law_subcommands_are_dealt_with(waiting: WaitingView, reply: ReplyView)
    requires
        accepts(waiting, reply),
    ensures
        next_step(waiting, reply).next matches NextView::Finish(Ok(given)) ==> given is Yes,
{
}

/// The error that an answer brings about, if any.
pub open spec fn cause(waiting: WaitingView, reply: ReplyView) -> Option<TmsError> {
    match waiting {
        WaitingView::PickChoice(_) => match reply->Selection_0 {
            Ok(_) => None,
            Err(e) => Some(e),
        },
        WaitingView::ConfigPath { .. } => if reply->Canonical_0 is None {
            Some(TmsError::IoError)
        } else {
            None
        },
        WaitingView::ConfigSaved => if !reply->Saved_0 {
            Some(TmsError::ConfigError)
        } else {
            None
        },
        WaitingView::RefreshWorktree { existing, names, at, .. } => match reply->Worktree_0 {
            None => Some(TmsError::GitError),
            Some(worktree) => if !existing.contains(names[at as int]) && worktree.prunable != Some(
                true,
            ) && worktree.path is None {
                Some(TmsError::NonUtf8Path)
            } else {
                None
            },
        },
        _ => None,
    }
}

/// An answer ends a run with an error if and only if it is the cause of that error, and then it
/// brings about nothing else.
pub proof fn law_errors_have_their_cause(waiting: WaitingView, reply: ReplyView)
    requires
        accepts(waiting, reply),
    ensures
        cause(waiting, reply) matches Some(error) ==> next_step(waiting, reply) == failed(
            Seq::<EffectView>::empty(),
            only(error),
        ),
        cause(waiting, reply) is None ==> !(next_step(waiting, reply).next matches NextView::Finish(
            Err(_),
        )),
{
}

/// The session that `kill` jumps to is running; where another one is running, it is not the one that
/// is killed; and it is the default session wherever that is running and is not the one killed.
pub proof fn law_kill_jumps_to_another(
    current: Seq<char>,
    sessions: Seq<Seq<char>>,
    default: Option<Seq<char>>,
)
    requires
        sessions.len() > 0,
    ensures
        sessions.contains(jump_target(current, sessions, default)),
        sessions.no_duplicates() && sessions.len() > 1 ==> jump_target(current, sessions, default)
            != current,
        default is Some && sessions.contains(default->0) && default->0 != current ==> jump_target(
            current,
            sessions,
            default,
        ) == default->0,
{
    assert(sessions.contains(sessions[0]));
    if sessions.len() > 1 {
        assert(sessions.contains(sessions[1]));
    }
}

/// A whole run of `kill`: it jumps, and then kills the session it was in.
pub proof fn law_kill(
    default: Option<Seq<char>>,
    first: ReplyView,
    current: Seq<char>,
    second: ReplyView,
    listing: Seq<char>,
)
    requires
        prints(first, current),
        prints(second, listing),
        listing.len() > 0,
    ensures
        run(kill_begin(default), seq![first, second]) == ended(
            seq![
                EffectView::Tmux(
                    "tmux switch-client -t "@ + jump_target(
                        current_name(current),
                        lines_of(listing),
                        default,
                    ),
                ),
                EffectView::Tmux("tmux kill-session -t "@ + current_name(current)),
            ],
        ),
{
    reveal_with_fuel(run, 3);
    assert(seq![first, second].drop_last() =~= seq![first]);
    assert(seq![first].drop_last() =~= Seq::<ReplyView>::empty());
    let end = run(kill_begin(default), seq![first, second]);
    assert(end.effects =~= seq![
        EffectView::Tmux(
            "tmux switch-client -t "@ + jump_target(
                current_name(current),
                lines_of(listing),
                default,
            ),
        ),
        EffectView::Tmux("tmux kill-session -t "@ + current_name(current)),
    ]);
}

/// The names of sessions, each with a space after it.
pub open spec fn spaced(sessions: Seq<Seq<char>>) -> Seq<char>
    decreases sessions.len(),
{
    if sessions.len() == 0 {
        Seq::<char>::empty()
    } else {
        spaced(sessions.drop_last()) + (sessions.last() + " "@)
    }
}

/// Sessions other than the current one are shown as they are.
pub proof fn law_other_sessions_have_no_asterisk(current: Seq<char>, sessions: Seq<Seq<char>>)
    requires
        !sessions.contains(current),
    ensures
        status_line(current, sessions) == spaced(sessions),
    decreases sessions.len(),
{
    if sessions.len() > 0 {
        assert(sessions[sessions.len() - 1] == sessions.last());
        assert forall|i: int| 0 <= i < sessions.drop_last().len() implies sessions.drop_last()[i]
            != current by {
            assert(sessions[i] != current);
        }
        law_other_sessions_have_no_asterisk(current, sessions.drop_last());
    }
}

/// The current session is shown with an asterisk, and it alone.
pub proof fn law_current_session_has_the_asterisk(
    before: Seq<Seq<char>>,
    current: Seq<char>,
    after: Seq<Seq<char>>,
)
    requires
        !before.contains(current),
        !after.contains(current),
    ensures
        status_line(current, before.push(current) + after) == spaced(before) + (current + "*"@
            + " "@) + spaced(after),
    decreases after.len(),
{
    let all = before.push(current) + after;
    if after.len() == 0 {
        assert(all =~= before.push(current));
        assert(all.drop_last() =~= before);
        law_other_sessions_have_no_asterisk(current, before);
        assert(status_line(current, all) =~= spaced(before) + (current + "*"@ + " "@) + spaced(
            after,
        ));
    } else {
        assert(after[after.len() - 1] == after.last());
        assert forall|i: int| 0 <= i < after.drop_last().len() implies after.drop_last()[i]
            != current by {
            assert(after[i] != current);
        }
        assert(all.drop_last() =~= before.push(current) + after.drop_last());
        assert(all.last() == after.last());
        law_current_session_has_the_asterisk(before, current, after.drop_last());
        assert(status_line(current, all) =~= spaced(before) + (current + "*"@ + " "@) + spaced(
            after,
        ));
    }
}

/// A whole run of `sessions`.
pub proof fn law_sessions(
    first: ReplyView,
    current: Seq<char>,
    second: ReplyView,
    listing: Seq<char>,
)
    requires
        prints(first, current),
        prints(second, listing),
    ensures
        run(sessions_begin(), seq![first, second]) == ended(
            seq![
                EffectView::Print(status_line(current_name(current), pieces(listing, '\n'))),
                EffectView::Sleep(100),
                EffectView::Tmux("tmux refresh-client -S"@),
            ],
        ),
{
    reveal_with_fuel(run, 3);
    assert(seq![first, second].drop_last() =~= seq![first]);
    assert(seq![first].drop_last() =~= Seq::<ReplyView>::empty());
    let end = run(sessions_begin(), seq![first, second]);
    assert(end.effects =~= seq![
        EffectView::Print(status_line(current_name(current), pieces(listing, '\n'))),
        EffectView::Sleep(100),
        EffectView::Tmux("tmux refresh-client -S"@),
    ]);
}

/// What is offered to the user holds no quote and no line feed.
pub proof fn law_choices_are_clean(output: Seq<char>)
    ensures
        forall|i: int|
            0 <= i < choices_in(output).len() ==> !(#[trigger] choices_in(output)[i]).contains(
                '\'',
            ) && !choices_in(output)[i].contains('\n'),
{
    let unquoted = without(output, '\'');
    let closed_up = replaced(unquoted, "\n\n"@, "\n"@);
    let body = trimmed(closed_up);
    law_without(output, '\'');
    reveal_strlit("\n");
    assert(!closed_up.contains('\'')) by {
        lemma_replaced_brings_in_nothing(unquoted, "\n\n"@, "\n"@, '\'');
    }
    assert(!body.contains('\'')) by {
        law_trimmed(closed_up);
        let (from, to) = choose|from: int, to: int|
            0 <= from <= to <= closed_up.len() && body == #[trigger] closed_up.subrange(from, to);
        if body.contains('\'') {
            let k = choose|k: int| 0 <= k < body.len() && body[k] == '\'';
            assert(closed_up[from + k] == '\'');
        }
    }
    law_pieces_clean(body, '\n');
    assert forall|i: int| 0 <= i < choices_in(output).len() implies !(#[trigger] choices_in(
        output,
    )[i]).contains('\'') && !choices_in(output)[i].contains('\n') by {
        lemma_pieces_bring_in_nothing(body, '\n', '\'');
    }
}

/// Where no two entries in a row are empty and none has white space at its ends, what is offered are
/// exactly the entries that are not empty, in order. Where all are empty, one empty choice is offered.
pub proof fn law_choices_are_the_entries(output: Seq<char>)
    requires
        no_three(without(output, '\''), '\n'),
        tight(without(output, '\''), '\n'),
    ensures
        ({
            let entries = filled_pieces(without(output, '\''), '\n');
            choices_in(output) == if entries.len() > 0 {
                entries
            } else {
                seq![Seq::<char>::empty()]
            }
        }),
{
    let unquoted = without(output, '\'');
    let closed_up = replaced(unquoted, "\n\n"@, "\n"@);
    let body = trimmed(closed_up);
    reveal_strlit("\n\n");
    reveal_strlit("\n");
    assert("\n\n"@ =~= seq!['\n', '\n']);
    assert("\n"@ =~= seq!['\n']);
    law_closing_up_keeps_filled_pieces(unquoted, '\n');
    law_closing_up_leaves_no_pair(unquoted, '\n');
    law_trimming_keeps_filled_pieces(closed_up, '\n');
    law_trimmed(closed_up);
    let (from, to) = choose|from: int, to: int|
        0 <= from <= to <= closed_up.len() && body == #[trigger] closed_up.subrange(from, to);
    assert forall|i: int| 0 < i < body.len() implies !(body[i - 1] == '\n' && #[trigger] body[i]
        == '\n') by {
        assert(closed_up[from + i] == body[i]);
    }
    let none = Seq::<Seq<char>>::empty();
    if body.len() > 0 {
        law_all_pieces_filled(body, '\n');
        lemma_pieces_nonempty(body, '\n');
    } else {
        assert(body =~= Seq::<char>::empty());
        assert(pieces(body, '\n') =~= seq![Seq::<char>::empty()]);
        reveal_with_fuel(Seq::filter, 2);
        assert(pieces(body, '\n').drop_last() =~= none);
        assert(filled_pieces(body, '\n') =~= none);
    }
}

/// Replacing brings in no character that is in neither text.
proof fn lemma_replaced_brings_in_nothing(
    s: Seq<char>,
    pattern: Seq<char>,
    with: Seq<char>,
    c: char,
)
    requires
        !s.contains(c),
        !with.contains(c),
    ensures
        !replaced(s, pattern, with).contains(c),
    decreases s.len(),
{
    let all = replaced(s, pattern, with);
    if s.len() > 0 {
        let rest = if pattern.len() > 0 && pattern.is_prefix_of(s) {
            s.skip(pattern.len() as int)
        } else {
            s.drop_first()
        };
        assert(!rest.contains(c)) by {
            if rest.contains(c) {
                let k = choose|k: int| 0 <= k < rest.len() && rest[k] == c;
                assert(s[k + s.len() - rest.len()] == c);
            }
        }
        lemma_replaced_brings_in_nothing(rest, pattern, with, c);
        let tail = replaced(rest, pattern, with);
        assert(s[0] != c);
        if all.contains(c) {
            let k = choose|k: int| 0 <= k < all.len() && all[k] == c;
            let lead = all.len() - tail.len();
            if k >= lead {
                assert(tail[k - lead] == c);
            } else if k < with.len() && (pattern.len() == 0 || pattern.is_prefix_of(s)) {
                assert(with[k] == c);
            }
        }
    }
}

/// Splitting brings in no character that is not in the text.
proof fn lemma_pieces_bring_in_nothing(s: Seq<char>, at: char, c: char)
    requires
        !s.contains(c),
    ensures
        forall|i: int| 0 <= i < pieces(s, at).len() ==> !(#[trigger] pieces(s, at)[i]).contains(c),
    decreases s.len(),
{
    if s.len() > 0 {
        let before = pieces(s.drop_last(), at);
        assert(s[s.len() - 1] == s.last());
        assert forall|i: int| 0 <= i < s.drop_last().len() implies s.drop_last()[i] != c by {
            assert(s[i] != c);
        }
        lemma_pieces_bring_in_nothing(s.drop_last(), at, c);
        lemma_pieces_nonempty(s.drop_last(), at);
        assert forall|i: int| 0 <= i < pieces(s, at).len() implies !(#[trigger] pieces(
            s,
            at,
        )[i]).contains(c) by {
            let piece = pieces(s, at)[i];
            if s.last() != at && i == before.len() - 1 {
                assert(!before[before.len() - 1].contains(c));
                if piece.contains(c) {
                    let k = choose|k: int| 0 <= k < piece.len() && piece[k] == c;
                    assert(before.last()[k] == c);
                }
            } else if i < before.len() {
                assert(piece == before[i]);
            }
        }
    }
}

/// A whole run of `switch` or `windows` in which something is chosen: the only effect is to go there,
/// under a name without dots.
pub proof fn law_pick(pick: Pick, first: ReplyView, listing: Seq<char>, chosen: Seq<char>)
    requires
        prints(first, listing),
    ensures
        run(pick_begin(pick), seq![first]).effects.len() == 0,
        run(pick_begin(pick), seq![first]).next matches NextView::Ask(query, _) && query
            == QueryView::Select(choices_in(listing), "tmux capture-pane -ept {}"@),
        run(pick_begin(pick), seq![first, ReplyView::Selection(Ok(Some(chosen)))]) == ended(
            seq![EffectView::Tmux(go_command(pick) + char_replaced(chosen, '.', '_'))],
        ),
        !char_replaced(chosen, '.', '_').contains('.'),
{
    let second = ReplyView::Selection(Ok(Some(chosen)));
    reveal_with_fuel(run, 3);
    assert(seq![first, second].drop_last() =~= seq![first]);
    assert(seq![first].drop_last() =~= Seq::<ReplyView>::empty());
    let end = run(pick_begin(pick), seq![first, second]);
    assert(end.effects =~= seq![
        EffectView::Tmux(go_command(pick) + char_replaced(chosen, '.', '_')),
    ]);
    law_char_replaced(chosen, '.', '_');
}

/// A whole run of `switch` or `windows` in which nothing is chosen has no effect.
pub proof fn law_pick_nothing(pick: Pick, first: ReplyView, listing: Seq<char>)
    requires
        prints(first, listing),
    ensures
        run(pick_begin(pick), seq![first, ReplyView::Selection(Ok(None))]) == ended(
            Seq::<EffectView>::empty(),
        ),
{
    let second = ReplyView::Selection(Ok(None));
    reveal_with_fuel(run, 3);
    assert(seq![first, second].drop_last() =~= seq![first]);
    assert(seq![first].drop_last() =~= Seq::<ReplyView>::empty());
    assert(run(pick_begin(pick), seq![first, second]).effects =~= Seq::<EffectView>::empty());
}

/// A whole run of `rename`.
pub proof fn law_rename(
    name: Seq<char>,
    first: ReplyView,
    current: Seq<char>,
    second: ReplyView,
    listing: Seq<char>,
)
    requires
        prints(first, current),
        prints(second, listing),
        lists_panes(listing),
    ensures
        run(rename_begin(name), seq![first, second]) == ended(
            rename_effects(panes_in(listing), trimmed(current), name),
        ),
{
    reveal_with_fuel(run, 3);
    assert(seq![first, second].drop_last() =~= seq![first]);
    assert(seq![first].drop_last() =~= Seq::<ReplyView>::empty());
    assert(run(rename_begin(name), seq![first, second]).effects =~= rename_effects(
        panes_in(listing),
        trimmed(current),
        name,
    ));
}

/// Every pane follows, once for each time it is listed and in the order of the listing; the directory
/// is moved before, and the session renamed after.
pub proof fn law_every_pane_follows(panes: Seq<PaneView>, current: Seq<char>, name: Seq<char>)
    requires
        panes.len() > 0,
    ensures
        rename_effects(panes, current, name).len() == panes.len() + 3,
        rename_effects(panes, current, name)[0] matches EffectView::Run(program, args) && program
            == "mv"@ && args.len() == 2,
        forall|i: int|
            0 <= i < panes.len() ==> rename_effects(panes, current, name)[i + 1]
                == change_directory(panes, (#[trigger] panes[i]).index, current, name),
        rename_effects(panes, current, name)[panes.len() as int + 1] == EffectView::Tmux(
            "tmux rename-session "@ + name,
        ),
{
}

/// Where no index is listed twice, each pane is taken to be where its own line says.
pub proof fn law_panes_are_told_apart(panes: Seq<PaneView>, i: int)
    requires
        0 <= i < panes.len(),
        forall|j: int, k: int|
            0 <= j < k < panes.len() ==> (#[trigger] panes[j]).index != (#[trigger] panes[k]).index,
    ensures
        cwd_of(panes, panes[i].index) == panes[i].cwd,
    decreases panes.len(),
{
    if i < panes.len() - 1 {
        let rest = panes.drop_last();
        assert forall|j: int, k: int| 0 <= j < k < rest.len() implies (#[trigger] rest[j]).index
            != (#[trigger] rest[k]).index by {
            assert(panes[j].index != panes[k].index);
        }
        law_panes_are_told_apart(rest, i);
        assert(rest[i] == panes[i]);
        assert(panes[i].index != panes[panes.len() - 1].index);
    }
}

/// Renaming a session to the name it has moves nothing: the directory is moved to where it is, and
/// every pane is sent to where it is.
pub proof fn law_rename_to_itself(panes: Seq<PaneView>, current: Seq<char>)
    requires
        panes.len() > 0,
    ensures
        rename_effects(panes, current, current)[0] == EffectView::Run(
            "mv"@,
            seq![cwd_of(panes, panes[0].index), cwd_of(panes, panes[0].index)],
        ),
        forall|i: int|
            0 <= i < panes.len() ==> rename_effects(panes, current, current)[i + 1]
                == EffectView::Tmux(
                "tmux send-keys -t "@ + (#[trigger] panes[i]).index + " \"cd "@ + cwd_of(
                    panes,
                    panes[i].index,
                ) + "\" Enter"@,
            ),
{
    assert forall|i: int| 0 <= i < panes.len() implies moved_cwd(
        panes,
        (#[trigger] panes[i]).index,
        current,
        current,
    ) == cwd_of(panes, panes[i].index) by {
        law_replaced_by_itself(cwd_of(panes, panes[i].index), current);
    }
}

/// What is passed on to `tmux split-window` holds no `-c`.
pub proof fn law_split_passes_on_no_directory(args: Seq<Seq<char>>)
    ensures
        !kept_args(args).contains("-c"@),
    decreases args.len(),
{
    if args.len() > 0 {
        if args[0] != "-c"@ {
            let rest = kept_args(args.drop_first());
            law_split_passes_on_no_directory(args.drop_first());
            if kept_args(args).contains("-c"@) {
                let k = choose|k: int|
                    0 <= k < kept_args(args).len() && kept_args(args)[k] == "-c"@;
                assert(rest[k - 1] == "-c"@);
            }
        } else if args.len() > 1 {
            law_split_passes_on_no_directory(args.skip(2));
        }
    }
}

/// Arguments without `-c` are passed on as they are, and give no directory.
pub proof fn law_split_passes_on_the_rest(args: Seq<Seq<char>>)
    requires
        !args.contains("-c"@),
    ensures
        kept_args(args) == args,
        given_directory(args) is None,
    decreases args.len(),
{
    if args.len() > 0 {
        let rest = args.drop_first();
        assert(args[0] != "-c"@);
        assert forall|i: int| 0 <= i < rest.len() implies rest[i] != "-c"@ by {
            assert(args[i + 1] != "-c"@);
        }
        law_split_passes_on_the_rest(rest);
        assert(seq![args[0]] + rest =~= args);
    }
}

/// What `tmux split-window` is run with.
pub open spec fn split_effect(kept: Seq<Seq<char>>, directory: Option<Seq<char>>) -> EffectView {
    EffectView::Run(
        "tmux"@,
        seq!["split-window"@] + kept + match directory {
            Some(directory) => seq!["-c"@, directory],
            None => Seq::<Seq<char>>::empty(),
        },
    )
}

/// A whole run of `split-window` with a directory: it is used, and no repository is looked for.
pub proof fn law_split_in_given_directory(
    args: Seq<Seq<char>>,
    first: ReplyView,
    path: Seq<char>,
    second: ReplyView,
    window: Seq<char>,
)
    requires
        prints(first, path),
        prints(second, window),
        given_directory(args) is Some,
    ensures
        run(split_begin(args), seq![first, second]) == ended(
            seq![split_effect(kept_args(args), given_directory(args))],
        ),
{
    reveal_with_fuel(run, 3);
    assert(seq![first, second].drop_last() =~= seq![first]);
    assert(seq![first].drop_last() =~= Seq::<ReplyView>::empty());
    assert(run(split_begin(args), seq![first, second]).effects =~= seq![
        split_effect(kept_args(args), given_directory(args)),
    ]);
}

/// A whole run of `split-window` without a directory: it starts in the worktree that is called like
/// the window, where there is one, and otherwise in the repository.
pub proof fn law_split_in_worktree(
    args: Seq<Seq<char>>,
    first: ReplyView,
    path: Seq<char>,
    second: ReplyView,
    window: Seq<char>,
    repository: Option<Seq<char>>,
    worktree: Option<WorktreeView>,
)
    requires
        prints(first, path),
        prints(second, window),
        given_directory(args) is None,
    ensures
        run(split_begin(args), seq![first, second]).next matches NextView::Ask(query, _) && query
            == QueryView::OpenRepository(shown_value(path)),
        run(
            split_begin(args),
            seq![
                first,
                second,
                ReplyView::Opened(true),
                ReplyView::RepositoryPath(repository),
            ],
        ).next matches NextView::Ask(query, _) && query == QueryView::Worktree(shown_value(window)),
        run(
            split_begin(args),
            seq![
                first,
                second,
                ReplyView::Opened(true),
                ReplyView::RepositoryPath(repository),
                ReplyView::Worktree(worktree),
            ],
        ) == ended(
            seq![
                split_effect(
                    kept_args(args),
                    match worktree {
                        Some(worktree) => worktree.path,
                        None => repository,
                    },
                ),
            ],
        ),
        run(split_begin(args), seq![first, second, ReplyView::Opened(false)]) == ended(
            seq![split_effect(kept_args(args), None)],
        ),
{
    let begin = split_begin(args);
    let none = Seq::<ReplyView>::empty();
    let third = ReplyView::Opened(true);
    let fourth = ReplyView::RepositoryPath(repository);
    let fifth = ReplyView::Worktree(worktree);
    lemma_run_on(begin, none, first);
    lemma_run_on(begin, none.push(first), second);
    lemma_run_on(begin, none.push(first).push(second), third);
    lemma_run_on(begin, none.push(first).push(second), ReplyView::Opened(false));
    lemma_run_on(begin, none.push(first).push(second).push(third), fourth);
    lemma_run_on(begin, none.push(first).push(second).push(third).push(fourth), fifth);
    assert(seq![first, second] =~= none.push(first).push(second));
    assert(seq![first, second, ReplyView::Opened(false)] =~= none.push(first).push(second).push(
        ReplyView::Opened(false),
    ));
    assert(seq![first, second, third, fourth] =~= none.push(first).push(second).push(third).push(
        fourth,
    ));
    assert(seq![first, second, third, fourth, fifth] =~= none.push(first).push(second).push(
        third,
    ).push(fourth).push(fifth));
    let directory = match worktree {
        Some(worktree) => worktree.path,
        None => repository,
    };
    assert(run(begin, seq![first, second, third, fourth, fifth]).effects =~= seq![
        split_effect(kept_args(args), directory),
    ]);
    assert(run(begin, seq![first, second, ReplyView::Opened(false)]).effects =~= seq![
        split_effect(kept_args(args), None),
    ]);
}

} // verus!
