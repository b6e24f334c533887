//! Laws of `kill` and `sessions`: what they do, from what `tmux` prints.

use crate::config::ConfigView;
use crate::expansion::EnvironmentView;
use crate::handle::begins;
use crate::kill::{current_name, kill_begin};
use crate::laws::{
    law_current_session_has_the_asterisk, law_kill, law_other_sessions_have_no_asterisk,
    law_sessions, lemma_run_on, prints, run, spaced, RunView,
};
use crate::list::{sessions_begin, status_line};
use crate::output_laws::{
    law_current_name_is_read_back, law_printed_lines, law_printed_pieces, no_return, on_lines,
    printed, shown_as,
};
use crate::protocol::{EffectView, NextView, QueryView, ReplyView, StepView, SubCommandGivenView};
use crate::request::RequestView;
use crate::text::lines_of;
use vstd::prelude::*;

verus! {

/// Nothing has been done, and the question is what this command line prints.
pub open spec fn only_asks(so_far: RunView, command: Seq<char>) -> bool {
    &&& so_far.effects.len() == 0
    &&& so_far.next matches NextView::Ask(query, _)
    &&& query == QueryView::TmuxOutput(command)
}

/// `kill` asks for the current session and for all of them, goes to another and kills the one it was
/// in: the session killed is the current one, and the one gone to is the default session where that
/// is listed and is another, or else the first that is listed and is another. Where only the current
/// one is listed, it goes there.
pub proof fn law_kill_leaves_and_kills(
    config: ConfigView,
    environment: EnvironmentView,
    step: StepView,
    current: Seq<char>,
    quoted: bool,
    names: Seq<Seq<char>>,
    first: ReplyView,
    second: ReplyView,
)
    requires
        begins(RequestView::Kill, config, environment, step),
        !current.contains('\''),
        !current.contains('\n'),
        prints(first, shown_as(current, quoted)),
        names.len() > 0,
        on_lines(names),
        no_return(names),
        prints(second, printed(names)),
    ensures
        only_asks(run(step, Seq::<ReplyView>::empty()), "tmux display-message -p '#S'"@),
        only_asks(run(step, seq![first]), "tmux list-sessions -F #S"@),
        ({
            let end = run(step, seq![first, second]);
            let default = config.default_session;
            let to = if default is Some && names.contains(default->0) && default->0 != current {
                default->0
            } else if names[0] != current || names.len() == 1 {
                names[0]
            } else {
                names[1]
            };
            &&& end.next == NextView::Finish(Ok(SubCommandGivenView::Yes))
            &&& end.effects.len() == 2
            &&& end.effects[0] == EffectView::Tmux("tmux switch-client -t "@ + to)
            &&& end.effects[1] == EffectView::Tmux("tmux kill-session -t "@ + current)
        }),
{
    let shown = shown_as(current, quoted);
    let listing = printed(names);
    lemma_kill_begins(config, environment, step);
    law_current_name_is_read_back(current, quoted);
    law_printed_lines(names);
    lemma_kill_asks(config.default_session, first, shown);
    lemma_kill_ends(config.default_session, current, names, first, shown, second, listing);
}

/// Where `kill` begins.
proof fn lemma_kill_begins(config: ConfigView, environment: EnvironmentView, step: StepView)
    requires
        begins(RequestView::Kill, config, environment, step),
    ensures
        step == kill_begin(config.default_session),
{
}

/// Where `sessions` begins.
proof fn lemma_sessions_begins(config: ConfigView, environment: EnvironmentView, step: StepView)
    requires
        begins(RequestView::Sessions, config, environment, step),
    ensures
        step == sessions_begin(),
{
}

/// How `kill` ends, once the sessions have been read.
proof fn lemma_kill_ends(
    default: Option<Seq<char>>,
    current: Seq<char>,
    names: Seq<Seq<char>>,
    first: ReplyView,
    shown: Seq<char>,
    second: ReplyView,
    listing: Seq<char>,
)
    requires
        prints(first, shown),
        current_name(shown) == current,
        names.len() > 0,
        prints(second, listing),
        listing.len() > 0,
        lines_of(listing) == names,
    ensures
        ({
            let end = run(kill_begin(default), seq![first, second]);
            let to = if default is Some && names.contains(default->0) && default->0 != current {
                default->0
            } else if names[0] != current || names.len() == 1 {
                names[0]
            } else {
                names[1]
            };
            &&& end.next == NextView::Finish(Ok(SubCommandGivenView::Yes))
            &&& end.effects.len() == 2
            &&& end.effects[0] == EffectView::Tmux("tmux switch-client -t "@ + to)
            &&& end.effects[1] == EffectView::Tmux("tmux kill-session -t "@ + current)
        }),
{
    law_kill(default, first, shown, second, listing);
}

/// What `kill` asks.
proof fn lemma_kill_asks(default: Option<Seq<char>>, first: ReplyView, text: Seq<char>)
    requires
        prints(first, text),
    ensures
        only_asks(
            run(kill_begin(default), Seq::<ReplyView>::empty()),
            "tmux display-message -p '#S'"@,
        ),
        only_asks(run(kill_begin(default), seq![first]), "tmux list-sessions -F #S"@),
{
    lemma_run_on(kill_begin(default), Seq::<ReplyView>::empty(), first);
    assert(seq![first] =~= Seq::<ReplyView>::empty().push(first));
}

/// What `sessions` asks.
proof fn lemma_sessions_asks(first: ReplyView, text: Seq<char>)
    requires
        prints(first, text),
    ensures
        only_asks(run(sessions_begin(), Seq::<ReplyView>::empty()), "tmux display-message -p '#S'"@),
        only_asks(run(sessions_begin(), seq![first]), "tmux list-sessions -F #S"@),
{
    lemma_run_on(sessions_begin(), Seq::<ReplyView>::empty(), first);
    assert(seq![first] =~= Seq::<ReplyView>::empty().push(first));
}

/// What is printed with the current session among the names.
proof fn lemma_shown_among(before: Seq<Seq<char>>, current: Seq<char>, after: Seq<Seq<char>>)
    requires
        current.len() > 0,
        !before.contains(current),
        !after.contains(current),
    ensures
        status_line(current, (before.push(current) + after).push(Seq::<char>::empty())) == spaced(
            before,
        ) + (current + "*"@ + " "@) + (spaced(after) + " "@),
{
    let none = Seq::<char>::empty();
    let more = after.push(none);
    assert((before.push(current) + after).push(none) =~= before.push(current) + more);
    assert forall|i: int| 0 <= i < more.len() implies more[i] != current by {
        if i < after.len() {
            assert(after[i] != current);
        }
    }
    law_current_session_has_the_asterisk(before, current, more);
    law_spaced_parts(after, none);
    assert(none + " "@ =~= " "@);
}

/// What is printed without the current session among the names.
proof fn lemma_shown_without(current: Seq<char>, names: Seq<Seq<char>>)
    requires
        current.len() > 0,
        !names.contains(current),
    ensures
        status_line(current, names.push(Seq::<char>::empty())) == spaced(names) + " "@,
{
    let none = Seq::<char>::empty();
    let more = names.push(none);
    assert forall|i: int| 0 <= i < more.len() implies more[i] != current by {
        if i < names.len() {
            assert(names[i] != current);
        }
    }
    law_other_sessions_have_no_asterisk(current, more);
    law_spaced_parts(names, none);
    assert(none + " "@ =~= " "@);
}

/// `sessions` prints every session that is listed, in order and each with a space after it, with an
/// asterisk behind the name of the current one and of no other; then it waits and has the status line
/// drawn again.
pub proof fn law_sessions_are_shown(
    config: ConfigView,
    environment: EnvironmentView,
    step: StepView,
    current: Seq<char>,
    quoted: bool,
    before: Seq<Seq<char>>,
    after: Seq<Seq<char>>,
    first: ReplyView,
    second: ReplyView,
)
    requires
        begins(RequestView::Sessions, config, environment, step),
        current.len() > 0,
        !current.contains('\''),
        !current.contains('\n'),
        prints(first, shown_as(current, quoted)),
        on_lines(before),
        on_lines(after),
        !before.contains(current),
        !after.contains(current),
        prints(second, printed(before.push(current) + after)),
    ensures
        only_asks(run(step, Seq::<ReplyView>::empty()), "tmux display-message -p '#S'"@),
        only_asks(run(step, seq![first]), "tmux list-sessions -F #S"@),
        run(step, seq![first, second]) == (RunView {
            effects: seq![
                EffectView::Print(
                    spaced(before) + (current + "*"@ + " "@) + (spaced(after) + " "@),
                ),
                EffectView::Sleep(100),
                EffectView::Tmux("tmux refresh-client -S"@),
            ],
            next: NextView::Finish(Ok(SubCommandGivenView::Yes)),
        }),
{
    let names = before.push(current) + after;
    let shown = shown_as(current, quoted);
    let listing = printed(names);
    lemma_sessions_begins(config, environment, step);
    law_current_name_is_read_back(current, quoted);
    assert(on_lines(names)) by {
        reveal(on_lines);
        assert forall|i: int| 0 <= i < names.len() implies !(#[trigger] names[i]).contains(
            '\n',
        ) by {
            if i < before.len() {
                assert(names[i] == before[i]);
            } else if i > before.len() {
                assert(names[i] == after[i - before.len() - 1]);
            }
        }
    }
    law_printed_pieces(names);
    lemma_shown_among(before, current, after);
    lemma_sessions_asks(first, shown);
    law_sessions(first, shown, second, listing);
}

/// Where the current session is not listed, `sessions` prints the others as they are.
pub proof fn law_other_sessions_are_shown(
    config: ConfigView,
    environment: EnvironmentView,
    step: StepView,
    current: Seq<char>,
    quoted: bool,
    names: Seq<Seq<char>>,
    first: ReplyView,
    second: ReplyView,
)
    requires
        begins(RequestView::Sessions, config, environment, step),
        current.len() > 0,
        !current.contains('\''),
        !current.contains('\n'),
        prints(first, shown_as(current, quoted)),
        on_lines(names),
        !names.contains(current),
        prints(second, printed(names)),
    ensures
        run(step, seq![first, second]).effects.len() == 3,
        run(step, seq![first, second]).effects[0] == EffectView::Print(spaced(names) + " "@),
{
    let shown = shown_as(current, quoted);
    let listing = printed(names);
    lemma_sessions_begins(config, environment, step);
    law_current_name_is_read_back(current, quoted);
    law_printed_pieces(names);
    lemma_shown_without(current, names);
    law_sessions(first, shown, second, listing);
}

/// What `sessions` prints for a list is what it prints for its parts, one after the other.
pub proof fn law_spaced_parts(a: Seq<Seq<char>>, name: Seq<char>)
    ensures
        spaced(Seq::<Seq<char>>::empty()).len() == 0,
        spaced(a.push(name)) == spaced(a) + (name + " "@),
{
    assert(a.push(name).drop_last() =~= a);
}

} // verus!
