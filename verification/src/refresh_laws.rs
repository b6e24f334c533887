//! Laws of `refresh`.

use crate::config::ConfigView;
use crate::expansion::EnvironmentView;
use crate::handle::begins;
use crate::laws::{ended, lemma_run_on, prints, run, RunView};
use crate::output_laws::{
    bare, law_printed_lines, law_shown_value, law_value_is_read_back, lemma_unquoted, no_return,
    on_lines, printed, shown_as,
};
use crate::protocol::{
    only, EffectView, NextView, QueryView, ReplyView, StepView, TmsError, WaitingView, WorktreeView,
};
use crate::refresh::{list_windows, new_window, readable, refresh_begin, refresh_next, window_names};
use crate::request::RequestView;
use crate::session_laws::only_asks;
use crate::split_window::shown_value;
use crate::text::{lines_of, without};
use crate::text_laws::law_without;
use vstd::prelude::*;

verus! {

/// A worktree gets a new window: it has none yet, and it cannot be pruned.
pub open spec fn needs_window(
    existing: Seq<Seq<char>>,
    name: Seq<char>,
    worktree: WorktreeView,
) -> bool {
    !existing.contains(name) && worktree.prunable != Some(true)
}

/// What is known of the worktrees is enough: those that need a window have a path to open it in.
pub open spec fn all_placed(
    existing: Seq<Seq<char>>,
    names: Seq<Seq<char>>,
    worktrees: Seq<WorktreeView>,
) -> bool {
    forall|i: int|
        0 <= i < worktrees.len() && needs_window(existing, names[i], #[trigger] worktrees[i])
            ==> worktrees[i].path is Some
}

/// The new windows, in the order of the worktrees.
pub open spec fn new_windows(
    session: Seq<char>,
    existing: Seq<Seq<char>>,
    names: Seq<Seq<char>>,
    worktrees: Seq<WorktreeView>,
) -> Seq<EffectView>
    decreases worktrees.len(),
{
    if worktrees.len() == 0 {
        Seq::<EffectView>::empty()
    } else {
        let before = new_windows(session, existing, names, worktrees.drop_last());
        let name = names[worktrees.len() - 1];
        if needs_window(existing, name, worktrees.last()) {
            before.push(new_window(session, worktrees.last().path->0, Some(name)))
        } else {
            before
        }
    }
}

/// How many of the worktrees have a window in the end.
pub open spec fn windows_in_the_end(
    existing: Seq<Seq<char>>,
    names: Seq<Seq<char>>,
    worktrees: Seq<WorktreeView>,
) -> nat
    decreases worktrees.len(),
{
    if worktrees.len() == 0 {
        0
    } else {
        let before = windows_in_the_end(existing, names, worktrees.drop_last());
        let name = names[worktrees.len() - 1];
        if existing.contains(name) || needs_window(existing, name, worktrees.last()) {
            before + 1
        } else {
            before
        }
    }
}

/// A worktree gets a window if and only if it needs one, and nothing else does.
pub proof fn law_who_gets_a_window(
    session: Seq<char>,
    existing: Seq<Seq<char>>,
    names: Seq<Seq<char>>,
    worktrees: Seq<WorktreeView>,
)
    ensures
        new_windows(session, existing, names, worktrees).len() <= worktrees.len(),
        forall|i: int|
            0 <= i < worktrees.len() && needs_window(existing, names[i], #[trigger] worktrees[i])
                ==> new_windows(session, existing, names, worktrees).contains(
                new_window(session, worktrees[i].path->0, Some(names[i])),
            ),
        forall|e: EffectView|
            #[trigger] new_windows(session, existing, names, worktrees).contains(e) ==> exists|
                i: int,
            |
                0 <= i < worktrees.len() && needs_window(
                    existing,
                    names[i],
                    #[trigger] worktrees[i],
                ) && e == new_window(session, worktrees[i].path->0, Some(names[i])),
    decreases worktrees.len(),
{
    if worktrees.len() > 0 {
        let rest = worktrees.drop_last();
        let last = worktrees.len() - 1;
        let before = new_windows(session, existing, names, rest);
        let all = new_windows(session, existing, names, worktrees);
        law_who_gets_a_window(session, existing, names, rest);
        assert(worktrees[last] == worktrees.last());
        assert forall|i: int|
            0 <= i < worktrees.len() && needs_window(
                existing,
                names[i],
                #[trigger] worktrees[i],
            ) implies all.contains(
            new_window(session, worktrees[i].path->0, Some(names[i])),
        ) by {
            if i < last {
                assert(rest[i] == worktrees[i]);
                let e = new_window(session, rest[i].path->0, Some(names[i]));
                assert(before.contains(e));
                let k = before.index_of(e);
                assert(all[k] == e);
            } else {
                assert(all[all.len() - 1] == new_window(
                    session,
                    worktrees[i].path->0,
                    Some(names[i]),
                ));
            }
        }
        assert forall|e: EffectView| #[trigger] all.contains(e) implies exists|i: int|
            0 <= i < worktrees.len() && needs_window(existing, names[i], #[trigger] worktrees[i])
                && e == new_window(session, worktrees[i].path->0, Some(names[i])) by {
            let k = all.index_of(e);
            if k < before.len() {
                assert(before[k] == e);
                assert(before.contains(e));
                let i = choose|i: int|
                    0 <= i < rest.len() && needs_window(existing, names[i], #[trigger] rest[i])
                        && e == new_window(session, rest[i].path->0, Some(names[i]));
                assert(rest[i] == worktrees[i]);
            } else {
                assert(needs_window(existing, names[last], worktrees[last]));
            }
        }
    }
}

/// Where every worktree has a window, none is opened.
pub proof fn law_all_there(
    session: Seq<char>,
    existing: Seq<Seq<char>>,
    names: Seq<Seq<char>>,
    worktrees: Seq<WorktreeView>,
)
    requires
        worktrees.len() <= names.len(),
        forall|i: int| 0 <= i < worktrees.len() ==> existing.contains(#[trigger] names[i]),
    ensures
        new_windows(session, existing, names, worktrees).len() == 0,
        windows_in_the_end(existing, names, worktrees) == worktrees.len(),
    decreases worktrees.len(),
{
    if worktrees.len() > 0 {
        assert(existing.contains(names[worktrees.len() - 1]));
        law_all_there(session, existing, names, worktrees.drop_last());
    }
}

/// A second refresh opens no window: `later` holds the windows there were, and those that the first
/// one has opened.
pub proof fn law_refreshing_again_opens_nothing(
    session: Seq<char>,
    existing: Seq<Seq<char>>,
    later: Seq<Seq<char>>,
    names: Seq<Seq<char>>,
    worktrees: Seq<WorktreeView>,
)
    requires
        worktrees.len() <= names.len(),
        forall|name: Seq<char>| existing.contains(name) ==> #[trigger] later.contains(name),
        forall|i: int|
            0 <= i < worktrees.len() && needs_window(existing, names[i], #[trigger] worktrees[i])
                ==> later.contains(names[i]),
    ensures
        new_windows(session, later, names, worktrees).len() == 0,
    decreases worktrees.len(),
{
    if worktrees.len() > 0 {
        let rest = worktrees.drop_last();
        let last = worktrees.len() - 1;
        assert(worktrees[last] == worktrees.last());
        assert forall|i: int|
            0 <= i < rest.len() && needs_window(existing, names[i], #[trigger] rest[i]) implies
            later.contains(names[i]) by {
            assert(rest[i] == worktrees[i]);
        }
        law_refreshing_again_opens_nothing(session, existing, later, names, rest);
        if !later.contains(names[last]) && worktrees[last].prunable != Some(true) {
            assert(!existing.contains(names[last]));
            assert(needs_window(existing, names[last], worktrees[last]));
        }
    }
}

/// The answers that describe some worktrees.
pub open spec fn worktree_replies(worktrees: Seq<WorktreeView>) -> Seq<ReplyView> {
    worktrees.map_values(|worktree: WorktreeView| ReplyView::Worktree(Some(worktree)))
}

/// The session that is refreshed: the one that is given, or else the current one.
pub open spec fn session_of(name: Option<Seq<char>>, current: Seq<char>) -> Seq<char> {
    shown_value(
        match name {
            Some(name) => name,
            None => current,
        },
    )
}

/// What a run of `refresh` is told before it asks for the worktrees one by one.
pub struct Surroundings {
    /// The answer to where the session is.
    pub place: ReplyView,
    /// The answer to how the current session is called.
    pub current: ReplyView,
    /// The answer to which windows there are.
    pub windows: ReplyView,
    /// The names of the worktrees, if they can be listed.
    pub listed: Option<Seq<Option<Seq<char>>>>,
}

/// The answers, in the order of the questions.
pub open spec fn told(s: Surroundings) -> Seq<ReplyView> {
    seq![
        s.place,
        s.current,
        s.windows,
        ReplyView::Opened(true),
        ReplyView::Worktrees(s.listed),
    ]
}

/// The names of the worktrees that are dealt with; none where they cannot be listed.
pub open spec fn dealt_with(s: Surroundings) -> Seq<Seq<char>> {
    match s.listed {
        Some(names) => readable(names),
        None => Seq::<Seq<char>>::empty(),
    }
}

/// The answers are the texts that the commands print.
pub open spec fn prints_all(
    s: Surroundings,
    place: Seq<char>,
    current: Seq<char>,
    windows: Seq<char>,
) -> bool {
    prints(s.place, place) && prints(s.current, current) && prints(s.windows, windows)
}

/// Without a repository, `refresh` does nothing.
pub proof fn law_refresh_without_repository(
    name: Option<Seq<char>>,
    s: Surroundings,
    place: Seq<char>,
    current: Seq<char>,
    windows: Seq<char>,
)
    requires
        prints_all(s, place, current, windows),
    ensures
        run(refresh_begin(name), seq![s.place, s.current, s.windows]).next
            matches NextView::Ask(query, _) && query == QueryView::OpenRepository(
            shown_value(place),
        ),
        run(
            refresh_begin(name),
            seq![s.place, s.current, s.windows, ReplyView::Opened(false)],
        ) == ended(Seq::<EffectView>::empty()),
{
    lemma_three_answers(name, s, place, current, windows);
    let begin = refresh_begin(name);
    let three = seq![s.place, s.current, s.windows];
    lemma_run_on(begin, three, ReplyView::Opened(false));
    assert(seq![s.place, s.current, s.windows, ReplyView::Opened(false)] =~= three.push(
        ReplyView::Opened(false),
    ));
    assert(run(begin, three.push(ReplyView::Opened(false))).effects =~= Seq::<EffectView>::empty());
}

/// The first three answers of a run.
proof fn lemma_three_answers(
    name: Option<Seq<char>>,
    s: Surroundings,
    place: Seq<char>,
    current: Seq<char>,
    windows: Seq<char>,
)
    requires
        prints_all(s, place, current, windows),
    ensures
        run(refresh_begin(name), seq![s.place, s.current, s.windows]) == (RunView {
            effects: Seq::<EffectView>::empty(),
            next: NextView::Ask(
                QueryView::OpenRepository(shown_value(place)),
                WaitingView::RefreshOpened {
                    session: session_of(name, current),
                    path: shown_value(place),
                    existing: window_names(windows),
                },
            ),
        }),
{
    let begin = refresh_begin(name);
    let none = Seq::<ReplyView>::empty();
    lemma_run_on(begin, none, s.place);
    lemma_run_on(begin, none.push(s.place), s.current);
    lemma_run_on(begin, none.push(s.place).push(s.current), s.windows);
    let three = none.push(s.place).push(s.current).push(s.windows);
    assert(three =~= seq![s.place, s.current, s.windows]);
    assert(run(begin, three).effects =~= Seq::<EffectView>::empty());
}

/// Worktrees are dealt with one by one, in the order in which they are listed: each that needs a
/// window has one opened before the next is asked for.
pub proof fn law_worktrees_in_order(
    name: Option<Seq<char>>,
    s: Surroundings,
    place: Seq<char>,
    current: Seq<char>,
    windows: Seq<char>,
    worktrees: Seq<WorktreeView>,
)
    requires
        prints_all(s, place, current, windows),
        worktrees.len() <= dealt_with(s).len(),
        all_placed(window_names(windows), dealt_with(s), worktrees),
    ensures
        ({
            let session = session_of(name, current);
            let existing = window_names(windows);
            run(refresh_begin(name), told(s) + worktree_replies(worktrees)) == (RunView {
                effects: new_windows(session, existing, dealt_with(s), worktrees),
                next: refresh_next(
                    session,
                    shown_value(place),
                    existing,
                    dealt_with(s),
                    worktrees.len(),
                    windows_in_the_end(existing, dealt_with(s), worktrees),
                ),
            })
        }),
    decreases worktrees.len(),
{
    let begin = refresh_begin(name);
    let session = session_of(name, current);
    let existing = window_names(windows);
    let names = dealt_with(s);
    if worktrees.len() == 0 {
        let three = seq![s.place, s.current, s.windows];
        lemma_three_answers(name, s, place, current, windows);
        lemma_run_on(begin, three, ReplyView::Opened(true));
        lemma_run_on(begin, three.push(ReplyView::Opened(true)), ReplyView::Worktrees(s.listed));
        let five = three.push(ReplyView::Opened(true)).push(ReplyView::Worktrees(s.listed));
        assert(told(s) + worktree_replies(worktrees) =~= five);
        assert(run(begin, five).effects =~= Seq::<EffectView>::empty());
    } else {
        let before = worktrees.drop_last();
        let last = ReplyView::Worktree(Some(worktrees.last()));
        assert(worktrees[worktrees.len() - 1] == worktrees.last());
        assert forall|i: int|
            0 <= i < before.len() && needs_window(existing, names[i], #[trigger] before[i]) implies
            before[i].path is Some by {
            assert(before[i] == worktrees[i]);
        }
        law_worktrees_in_order(name, s, place, current, windows, before);
        lemma_run_on(begin, told(s) + worktree_replies(before), last);
        assert(told(s) + worktree_replies(worktrees) =~= (told(s) + worktree_replies(before)).push(
            last,
        ));
        assert(run(begin, told(s) + worktree_replies(worktrees)).effects =~= new_windows(
            session,
            existing,
            names,
            worktrees,
        ));
    }
}

/// A whole run of `refresh` in a bare repository: the worktrees get their windows, and nothing more
/// is opened.
pub proof fn law_refresh_bare(
    name: Option<Seq<char>>,
    s: Surroundings,
    place: Seq<char>,
    current: Seq<char>,
    windows: Seq<char>,
    worktrees: Seq<WorktreeView>,
)
    requires
        prints_all(s, place, current, windows),
        worktrees.len() == dealt_with(s).len(),
        all_placed(window_names(windows), dealt_with(s), worktrees),
    ensures
        run(
            refresh_begin(name),
            (told(s) + worktree_replies(worktrees)).push(ReplyView::Bare(true)),
        ) == ended(
            new_windows(
                session_of(name, current),
                window_names(windows),
                dealt_with(s),
                worktrees,
            ),
        ),
{
    let begin = refresh_begin(name);
    let all = told(s) + worktree_replies(worktrees);
    law_worktrees_in_order(name, s, place, current, windows, worktrees);
    lemma_run_on(begin, all, ReplyView::Bare(true));
    assert(run(begin, all.push(ReplyView::Bare(true))).effects =~= run(begin, all).effects);
}

/// A whole run of `refresh` in any other repository: after the windows of the worktrees one for the
/// repository itself is opened, where there are no more windows than worktrees that have one.
pub proof fn law_refresh(
    name: Option<Seq<char>>,
    s: Surroundings,
    place: Seq<char>,
    current: Seq<char>,
    windows: Seq<char>,
    worktrees: Seq<WorktreeView>,
    again: ReplyView,
    windows_then: Seq<char>,
)
    requires
        prints_all(s, place, current, windows),
        worktrees.len() == dealt_with(s).len(),
        all_placed(window_names(windows), dealt_with(s), worktrees),
        prints(again, windows_then),
    ensures
        ({
            let session = session_of(name, current);
            let opened = new_windows(session, window_names(windows), dealt_with(s), worktrees);
            let replies = (told(s) + worktree_replies(worktrees)).push(ReplyView::Bare(false));
            &&& run(refresh_begin(name), replies).next matches NextView::Ask(query, _) && query
                == QueryView::TmuxOutput(list_windows(session))
            &&& run(refresh_begin(name), replies.push(again)) == ended(
                if lines_of(windows_then).len() <= windows_in_the_end(
                    window_names(windows),
                    dealt_with(s),
                    worktrees,
                ) {
                    opened.push(new_window(session, shown_value(place), None))
                } else {
                    opened
                },
            )
        }),
{
    let begin = refresh_begin(name);
    let session = session_of(name, current);
    let all = told(s) + worktree_replies(worktrees);
    let replies = all.push(ReplyView::Bare(false));
    let opened = new_windows(session, window_names(windows), dealt_with(s), worktrees);
    law_worktrees_in_order(name, s, place, current, windows, worktrees);
    lemma_run_on(begin, all, ReplyView::Bare(false));
    assert(run(begin, replies).effects =~= opened);
    lemma_run_on(begin, replies, again);
    let end = run(begin, replies.push(again)).effects;
    assert(end =~= opened || end =~= opened.push(new_window(session, shown_value(place), None)));
}

/// A worktree that is listed but cannot be found ends the run with an error, and so does one that
/// needs a window and has a path that is not valid UTF-8. The windows opened before stay.
pub proof fn law_refresh_fails(
    name: Option<Seq<char>>,
    s: Surroundings,
    place: Seq<char>,
    current: Seq<char>,
    windows: Seq<char>,
    worktrees: Seq<WorktreeView>,
    bad: Option<WorktreeView>,
)
    requires
        prints_all(s, place, current, windows),
        worktrees.len() < dealt_with(s).len(),
        all_placed(window_names(windows), dealt_with(s), worktrees),
        bad matches Some(worktree) ==> worktree.path is None && needs_window(
            window_names(windows),
            dealt_with(s)[worktrees.len() as int],
            worktree,
        ),
    ensures
        run(
            refresh_begin(name),
            (told(s) + worktree_replies(worktrees)).push(ReplyView::Worktree(bad)),
        ) == (RunView {
            effects: new_windows(
                session_of(name, current),
                window_names(windows),
                dealt_with(s),
                worktrees,
            ),
            next: NextView::Finish(
                Err(
                    only(
                        if bad is None {
                            TmsError::GitError
                        } else {
                            TmsError::NonUtf8Path
                        },
                    ),
                ),
            ),
        }),
{
    let begin = refresh_begin(name);
    let all = told(s) + worktree_replies(worktrees);
    law_worktrees_in_order(name, s, place, current, windows, worktrees);
    lemma_run_on(begin, all, ReplyView::Worktree(bad));
    assert(run(begin, all.push(ReplyView::Worktree(bad))).effects =~= run(begin, all).effects);
}

/// `names` with quotes around each, or as they are.
pub open spec fn window_rows(names: Seq<Seq<char>>, quoted: bool) -> Seq<Seq<char>> {
    if quoted {
        names.map_values(|name: Seq<char>| seq!['\''] + name + seq!['\''])
    } else {
        names
    }
}

/// No name holds a quote.
pub open spec fn without_quotes(names: Seq<Seq<char>>) -> bool {
    forall|i: int| 0 <= i < names.len() ==> !(#[trigger] names[i]).contains('\'')
}

/// A text in quotes is on one line if the text is, and does not end with a carriage return.
proof fn lemma_quoted_row(name: Seq<char>)
    requires
        !name.contains('\n'),
    ensures
        !(seq!['\''] + name + seq!['\'']).contains('\n'),
        (seq!['\''] + name + seq!['\'']).last() == '\'',
{
    let row = seq!['\''] + name + seq!['\''];
    if row.contains('\n') {
        let k = choose|k: int| 0 <= k < row.len() && row[k] == '\n';
        assert(name[k - 1] == '\n');
    }
}

/// The names of windows are read back from their listing, in order.
pub proof fn law_windows_are_read_back(names: Seq<Seq<char>>, quoted: bool)
    requires
        on_lines(names),
        no_return(names),
        without_quotes(names),
    ensures
        window_names(printed(window_rows(names, quoted))) == names,
        lines_of(printed(window_rows(names, quoted))).len() == names.len(),
{
    let rows = window_rows(names, quoted);
    assert(on_lines(rows) && no_return(rows)) by {
        reveal(on_lines);
        reveal(no_return);
        if quoted {
            assert forall|i: int| 0 <= i < rows.len() implies !(#[trigger] rows[i]).contains('\n')
                && rows[i].last() == '\'' by {
                assert(!names[i].contains('\n'));
                lemma_quoted_row(names[i]);
            }
        }
    }
    law_printed_lines(rows);
    let read = window_names(printed(rows));
    assert forall|i: int| 0 <= i < names.len() implies #[trigger] read[i] == names[i] by {
        assert(!names[i].contains('\''));
        assert(read[i] == without(rows[i], '\''));
        lemma_unquoted(names[i]);
        law_without(names[i], '\'');
    }
    assert(read =~= names);
}

/// A window is opened in the session, in the directory and under the name, where one is given.
pub proof fn law_new_window(session: Seq<char>, path: Seq<char>, name: Seq<char>)
    ensures
        new_window(session, path, Some(name)) == EffectView::Run(
            "tmux"@,
            seq!["new-window"@, "-t"@, session, "-c"@, path, "-n"@, name],
        ),
        new_window(session, path, None) == EffectView::Run(
            "tmux"@,
            seq!["new-window"@, "-t"@, session, "-c"@, path],
        ),
        list_windows(session) == "tmux list-windows -t "@ + session + " -F '#{window_name}'"@,
{
    let first = seq!["new-window"@, "-t"@, session, "-c"@, path];
    assert(first + seq!["-n"@, name] =~= seq![
        "new-window"@,
        "-t"@,
        session,
        "-c"@,
        path,
        "-n"@,
        name,
    ]);
    assert(first + Seq::<Seq<char>>::empty() =~= first);
}

/// Of the names that are listed, exactly those that can be read are dealt with, in order.
pub proof fn law_readable_names(listed: Seq<Option<Seq<char>>>, name: Seq<char>)
    ensures
        readable(Seq::<Option<Seq<char>>>::empty()).len() == 0,
        readable(listed.push(Some(name))) == readable(listed).push(name),
        readable(listed.push(None)) == readable(listed),
{
    assert(listed.push(Some(name)).drop_last() =~= listed);
    assert(listed.push(None).drop_last() =~= listed);
}

/// What a run of `refresh` is told about a session called `session`, at `path`, with `windows`.
pub open spec fn is_told(
    s: Surroundings,
    given: Option<Seq<char>>,
    session: Seq<char>,
    path: Seq<char>,
    windows: Seq<Seq<char>>,
    quoted: bool,
) -> bool {
    &&& bare(session) && !session.contains('\'')
    &&& bare(path) && !path.contains('\'')
    &&& on_lines(windows) && no_return(windows) && without_quotes(windows)
    &&& prints(s.place, shown_as(path, quoted))
    &&& prints(s.windows, printed(window_rows(windows, quoted)))
    &&& match given {
        Some(name) => name == session && exists|current: Seq<char>| prints(s.current, current),
        None => prints(s.current, shown_as(session, quoted)),
    }
}

/// What is told is read.
proof fn lemma_told(
    s: Surroundings,
    given: Option<Seq<char>>,
    session: Seq<char>,
    path: Seq<char>,
    windows: Seq<Seq<char>>,
    quoted: bool,
) -> (r: (Seq<char>, Seq<char>, Seq<char>))
    requires
        is_told(s, given, session, path, windows, quoted),
    ensures
        prints_all(s, r.0, r.1, r.2),
        shown_value(r.0) == path,
        session_of(given, r.1) == session,
        window_names(r.2) == windows,
{
    law_value_is_read_back(path, quoted);
    law_value_is_read_back(session, quoted);
    law_windows_are_read_back(windows, quoted);
    let none = Seq::<char>::empty();
    let current = match given {
        Some(_) => choose|current: Seq<char>| prints(s.current, current),
        None => shown_as(session, quoted),
    };
    law_shown_value(none, session, none);
    assert(none + session + none == session);
    law_without(session, '\'');
    (shown_as(path, quoted), current, printed(window_rows(windows, quoted)))
}

/// What `refresh` asks, and of what.
pub proof fn law_refresh_asks(
    config: ConfigView,
    environment: EnvironmentView,
    step: StepView,
    given: Option<Seq<char>>,
    s: Surroundings,
    session: Seq<char>,
    path: Seq<char>,
    windows: Seq<Seq<char>>,
    quoted: bool,
    worktrees: Seq<WorktreeView>,
)
    requires
        begins(RequestView::Refresh(given), config, environment, step),
        is_told(s, given, session, path, windows, quoted),
        worktrees.len() <= dealt_with(s).len(),
        all_placed(windows, dealt_with(s), worktrees),
    ensures
        only_asks(
            run(step, Seq::<ReplyView>::empty()),
            "tmux display-message -p '#{session_path}'"@,
        ),
        only_asks(run(step, seq![s.place]), "tmux display-message -p '#S'"@),
        only_asks(
            run(step, seq![s.place, s.current]),
            "tmux list-windows -t "@ + session + " -F '#{window_name}'"@,
        ),
        run(step, seq![s.place, s.current, s.windows]).next matches NextView::Ask(query, _) && query
            == QueryView::OpenRepository(path),
        run(
            step,
            seq![s.place, s.current, s.windows, ReplyView::Opened(true)],
        ).next matches NextView::Ask(query, _) && query == QueryView::Worktrees,
        run(
            step,
            seq![s.place, s.current, s.windows, ReplyView::Opened(false)],
        ) == ended(Seq::<EffectView>::empty()),
        run(step, told(s) + worktree_replies(worktrees)).next matches NextView::Ask(query, _)
            && query == if worktrees.len() < dealt_with(s).len() {
            QueryView::Worktree(dealt_with(s)[worktrees.len() as int])
        } else {
            QueryView::Bare
        },
{
    let (place, current, listing) = lemma_told(s, given, session, path, windows, quoted);
    lemma_refresh_begins(config, environment, step, given);
    lemma_first_questions(given, s, place, current, listing);
    law_refresh_without_repository(given, s, place, current, listing);
    law_worktrees_in_order(given, s, place, current, listing, worktrees);
    law_new_window(session, path, path);
}

/// Where `refresh` begins.
proof fn lemma_refresh_begins(
    config: ConfigView,
    environment: EnvironmentView,
    step: StepView,
    given: Option<Seq<char>>,
)
    requires
        begins(RequestView::Refresh(given), config, environment, step),
    ensures
        step == refresh_begin(given),
{
}

/// The questions before the worktrees are listed.
proof fn lemma_first_questions(
    given: Option<Seq<char>>,
    s: Surroundings,
    place: Seq<char>,
    current: Seq<char>,
    windows: Seq<char>,
)
    requires
        prints_all(s, place, current, windows),
    ensures
        ({
            let begin = refresh_begin(given);
            &&& only_asks(
                run(begin, Seq::<ReplyView>::empty()),
                "tmux display-message -p '#{session_path}'"@,
            )
            &&& only_asks(run(begin, seq![s.place]), "tmux display-message -p '#S'"@)
            &&& only_asks(
                run(begin, seq![s.place, s.current]),
                list_windows(session_of(given, current)),
            )
            &&& run(
                begin,
                seq![s.place, s.current, s.windows, ReplyView::Opened(true)],
            ).next matches NextView::Ask(query, _) && query == QueryView::Worktrees
        }),
{
    let begin = refresh_begin(given);
    let none = Seq::<ReplyView>::empty();
    let three = seq![s.place, s.current, s.windows];
    lemma_run_on(begin, none, s.place);
    lemma_run_on(begin, none.push(s.place), s.current);
    assert(seq![s.place] =~= none.push(s.place));
    assert(seq![s.place, s.current] =~= none.push(s.place).push(s.current));
    lemma_three_answers(given, s, place, current, windows);
    lemma_run_on(begin, three, ReplyView::Opened(true));
    assert(seq![s.place, s.current, s.windows, ReplyView::Opened(true)] =~= three.push(
        ReplyView::Opened(true),
    ));
}

/// A worktree gets a window of its own name, in its own directory and in the session, if and only if
/// none is called like it and it cannot be pruned, and no other window is opened for worktrees. In a
/// bare repository that is all; in any other, one more is opened at the path of the session where
/// there are no more windows in the end than worktrees that have one.
pub proof fn law_refresh_gives_windows(
    config: ConfigView,
    environment: EnvironmentView,
    step: StepView,
    given: Option<Seq<char>>,
    s: Surroundings,
    session: Seq<char>,
    path: Seq<char>,
    windows: Seq<Seq<char>>,
    quoted: bool,
    worktrees: Seq<WorktreeView>,
    again: ReplyView,
    later: Seq<Seq<char>>,
)
    requires
        begins(RequestView::Refresh(given), config, environment, step),
        is_told(s, given, session, path, windows, quoted),
        worktrees.len() == dealt_with(s).len(),
        all_placed(windows, dealt_with(s), worktrees),
        on_lines(later),
        no_return(later),
        prints(again, printed(later)),
    ensures
        ({
            let names = dealt_with(s);
            let opened = new_windows(session, windows, names, worktrees);
            let replies = told(s) + worktree_replies(worktrees);
            &&& run(step, replies.push(ReplyView::Bare(true))) == ended(opened)
            &&& run(step, replies.push(ReplyView::Bare(false)).push(again)) == ended(
                if later.len() <= windows_in_the_end(windows, names, worktrees) {
                    opened.push(
                        EffectView::Run(
                            "tmux"@,
                            seq!["new-window"@, "-t"@, session, "-c"@, path],
                        ),
                    )
                } else {
                    opened
                },
            )
        }),
{
    let (place, current, listing) = lemma_told(s, given, session, path, windows, quoted);
    lemma_refresh_begins(config, environment, step, given);
    law_refresh_bare(given, s, place, current, listing, worktrees);
    law_printed_lines(later);
    law_refresh(given, s, place, current, listing, worktrees, again, printed(later));
    law_new_window(session, path, path);
}

/// One more worktree: it has a window opened behind the others' if and only if it needs one, in its
/// own directory and under its own name; and it counts if it has one in the end.
pub proof fn law_one_more_worktree(
    session: Seq<char>,
    windows: Seq<Seq<char>>,
    names: Seq<Seq<char>>,
    worktrees: Seq<WorktreeView>,
    name: Seq<char>,
    worktree: WorktreeView,
)
    requires
        names.len() == worktrees.len(),
    ensures
        ({
            let before = new_windows(session, windows, names, worktrees);
            let after = new_windows(session, windows, names.push(name), worktrees.push(worktree));
            let count = windows_in_the_end(windows, names, worktrees);
            let counted = windows_in_the_end(windows, names.push(name), worktrees.push(worktree));
            &&& windows.contains(name) ==> after == before && counted == count + 1
            &&& !windows.contains(name) && worktree.prunable == Some(true) ==> after == before
                && counted == count
            &&& !windows.contains(name) && worktree.prunable != Some(true) ==> after == before.push(
                EffectView::Run(
                    "tmux"@,
                    seq![
                        "new-window"@,
                        "-t"@,
                        session,
                        "-c"@,
                        worktree.path->0,
                        "-n"@,
                        name,
                    ],
                ),
            ) && counted == count + 1
        }),
{
    let more = names.push(name);
    assert(worktrees.push(worktree).drop_last() =~= worktrees);
    assert(forall|i: int| 0 <= i < names.len() ==> #[trigger] more[i] == names[i]);
    lemma_names_beyond(session, windows, names, more, worktrees);
    law_new_window(session, worktree.path->0, name);
}

/// Names beyond the worktrees do not matter.
proof fn lemma_names_beyond(
    session: Seq<char>,
    windows: Seq<Seq<char>>,
    names: Seq<Seq<char>>,
    more: Seq<Seq<char>>,
    worktrees: Seq<WorktreeView>,
)
    requires
        worktrees.len() <= names.len(),
        forall|i: int| 0 <= i < names.len() ==> #[trigger] more[i] == names[i],
    ensures
        new_windows(session, windows, names, worktrees) == new_windows(
            session,
            windows,
            more,
            worktrees,
        ),
        windows_in_the_end(windows, names, worktrees) == windows_in_the_end(
            windows,
            more,
            worktrees,
        ),
    decreases worktrees.len(),
{
    if worktrees.len() > 0 {
        lemma_names_beyond(session, windows, names, more, worktrees.drop_last());
        assert(more[worktrees.len() - 1] == names[worktrees.len() - 1]);
    }
}

} // verus!
