//! Laws of `rename`: what it does, from what `tmux` prints.

use crate::config::ConfigView;
use crate::expansion::EnvironmentView;
use crate::handle::begins;
use crate::laws::{law_panes_are_told_apart, law_rename, lemma_run_on, prints, run, RunView};
use crate::output_laws::{bare, law_printed_and_trimmed, on_lines, printed};
use crate::protocol::{EffectView, NextView, ReplyView, StepView, SubCommandGivenView};
use crate::rename::{
    cwd_of, describes_pane, lists_panes, pane_in, pane_lines, panes_in, rename_begin,
    rename_effects, PaneView,
};
use crate::request::RequestView;
use crate::session_laws::only_asks;
use crate::text::{is_white, replaced, trimmed};
use crate::text_laws::{
    law_pieces_at_separator, law_pieces_whole, law_replaced_first, law_replaced_nowhere,
    law_trimmed_between, stands_at,
};
use vstd::prelude::*;

verus! {

/// The line that is printed for a pane.
#[verifier::opaque]
pub open spec fn pane_line(pane: PaneView) -> Seq<char> {
    pane.index + seq![','] + (pane.command + seq![','] + pane.cwd)
}

/// The lines that are printed for panes.
pub open spec fn lines_for(panes: Seq<PaneView>) -> Seq<Seq<char>> {
    panes.map_values(|pane: PaneView| pane_line(pane))
}

/// No field of the pane holds a comma or a line feed.
pub open spec fn separable(pane: PaneView) -> bool {
    &&& !pane.index.contains(',') && !pane.command.contains(',') && !pane.cwd.contains(',')
    &&& !pane.index.contains('\n') && !pane.command.contains('\n') && !pane.cwd.contains('\n')
}

/// `current` stands in `s` at `at`, and nowhere before.
pub open spec fn first_at(s: Seq<char>, current: Seq<char>, at: int) -> bool {
    stands_at(s, current, at) && forall|i: int| i < at ==> !#[trigger] stands_at(s, current, i)
}

/// `parts` with `between` between each two neighbours.
pub open spec fn woven(parts: Seq<Seq<char>>, between: Seq<char>) -> Seq<char>
    decreases parts.len(),
{
    if parts.len() == 0 {
        Seq::<char>::empty()
    } else if parts.len() == 1 {
        parts[0]
    } else {
        parts[0] + between + woven(parts.drop_first(), between)
    }
}

/// Read from the left, `current` stands between `parts` and in none of them.
pub open spec fn leftmost(parts: Seq<Seq<char>>, current: Seq<char>) -> bool
    decreases parts.len(),
{
    if parts.len() == 0 {
        false
    } else if parts.len() == 1 {
        forall|i: int| !#[trigger] stands_at(parts[0], current, i)
    } else {
        first_at(woven(parts, current), current, parts[0].len() as int) && leftmost(
            parts.drop_first(),
            current,
        )
    }
}

/// `new` is the directory `old` with `name` in the place of `current`, wherever that stands, and with
/// everything between kept.
pub open spec fn renames(
    old: Seq<char>,
    current: Seq<char>,
    name: Seq<char>,
    new: Seq<char>,
) -> bool {
    exists|parts: Seq<Seq<char>>| #[trigger]
        leftmost(parts, current) && old == woven(parts, current) && new == woven(parts, name)
}

/// Where the old name stands in a directory in one place, the new name stands there whole, and
/// everything around it is kept. Where it stands nowhere, the directory stays the same.
pub proof fn law_renamed_in_one_place(
    a: Seq<char>,
    current: Seq<char>,
    b: Seq<char>,
    name: Seq<char>,
)
    requires
        current.len() > 0,
    ensures
        (forall|i: int| i != a.len() ==> !#[trigger] stands_at(a + current + b, current, i))
            ==> renames(a + current + b, current, name, a + name + b),
        (forall|i: int| !#[trigger] stands_at(a, current, i)) ==> renames(a, current, name, a),
{
    let old = a + current + b;
    if forall|i: int| i != a.len() ==> !#[trigger] stands_at(old, current, i) {
        assert(old.subrange(a.len() as int, a.len() as int + current.len()) =~= current);
        assert forall|i: int| !#[trigger] stands_at(b, current, i) by {
            let j = i + a.len() + current.len();
            if stands_at(b, current, i) {
                assert(old.subrange(j, j + current.len()) =~= b.subrange(i, i + current.len()));
                assert(stands_at(old, current, j));
            }
        }
        let parts = seq![a, b];
        reveal_with_fuel(woven, 2);
        reveal_with_fuel(leftmost, 2);
        assert(parts.drop_first() =~= seq![b]);
        assert(woven(parts, current) == old);
        assert(first_at(old, current, a.len() as int));
        assert(leftmost(parts, current));
    }
    if forall|i: int| !#[trigger] stands_at(a, current, i) {
        assert(leftmost(seq![a], current));
        assert(woven(seq![a], current) == a && woven(seq![a], name) == a);
    }
}

/// The fields of a line are read one by one; what follows the third does not matter.
pub proof fn law_pane_fields(index: Seq<char>, command: Seq<char>, cwd: Seq<char>, rest: Seq<char>)
    requires
        !index.contains(','),
        !command.contains(','),
        !cwd.contains(','),
    ensures
        pane_in(index + seq![','] + (command + seq![','] + cwd)) == (PaneView {
            index,
            command,
            cwd,
        }),
        pane_in(index + seq![','] + (command + seq![','] + (cwd + seq![','] + rest))) == (PaneView {
            index,
            command,
            cwd,
        }),
        describes_pane(index + seq![','] + (command + seq![','] + cwd)),
        !describes_pane(index + seq![','] + command),
        !describes_pane(index),
{
    law_pieces_whole(index, ',');
    law_pieces_whole(command, ',');
    law_pieces_whole(cwd, ',');
    law_pieces_at_separator(command, ',', cwd);
    law_pieces_at_separator(index, ',', command + seq![','] + cwd);
    law_pieces_at_separator(cwd, ',', rest);
    law_pieces_at_separator(command, ',', cwd + seq![','] + rest);
    law_pieces_at_separator(index, ',', command + seq![','] + (cwd + seq![','] + rest));
    law_pieces_at_separator(index, ',', command);
}

/// The line of a pane is on one line, and describes it.
proof fn lemma_pane_line(pane: PaneView)
    requires
        separable(pane),
    ensures
        !pane_line(pane).contains('\n'),
        describes_pane(pane_line(pane)),
        pane_in(pane_line(pane)) == pane,
        pane_line(pane).len() > 0,
        pane.index.len() > 0 ==> pane_line(pane).first() == pane.index.first(),
        pane_line(pane).last() == if pane.cwd.len() > 0 {
            pane.cwd.last()
        } else {
            ','
        },
{
    reveal(pane_line);
    law_pane_fields(pane.index, pane.command, pane.cwd, Seq::<char>::empty());
    let line = pane_line(pane);
    let n = pane.index.len();
    let m = pane.command.len();
    if line.contains('\n') {
        let k = choose|k: int| 0 <= k < line.len() && line[k] == '\n';
        if k < n {
            assert(pane.index[k] == '\n');
        } else if k > n && k < n + 1 + m {
            assert(pane.command[k - n - 1] == '\n');
        } else if k > n + 1 + m {
            assert(pane.cwd[k - n - m - 2] == '\n');
        }
    }
}

/// Panes are read back from their listing, in order.
pub proof fn law_panes_are_read_back(panes: Seq<PaneView>)
    requires
        panes.len() > 0,
        forall|i: int| 0 <= i < panes.len() ==> separable(#[trigger] panes[i]),
        panes[0].index.len() > 0,
        !is_white(panes[0].index.first()),
        panes.last().cwd.len() > 0 ==> !is_white(panes.last().cwd.last()),
    ensures
        lists_panes(printed(lines_for(panes))),
        panes_in(printed(lines_for(panes))) == panes,
{
    let lines = lines_for(panes);
    assert forall|i: int| 0 <= i < lines.len() implies !(#[trigger] lines[i]).contains('\n')
        && describes_pane(lines[i]) && pane_in(lines[i]) == panes[i] by {
        assert(separable(panes[i]));
        lemma_pane_line(panes[i]);
    }
    assert(on_lines(lines)) by {
        reveal(on_lines);
    }
    lemma_pane_line(panes[0]);
    assert(separable(panes[panes.len() - 1]));
    lemma_pane_line(panes[panes.len() - 1]);
    assert(lines.last() == pane_line(panes[panes.len() - 1]));
    assert(!is_white(','));
    law_printed_and_trimmed(lines);
    assert(pane_lines(printed(lines)) == lines);
    assert(panes_in(printed(lines)) =~= panes);
}

/// Replacing puts the new text between the same parts.
proof fn lemma_woven(parts: Seq<Seq<char>>, current: Seq<char>, name: Seq<char>)
    requires
        current.len() > 0,
        leftmost(parts, current),
    ensures
        replaced(woven(parts, current), current, name) == woven(parts, name),
    decreases parts.len(),
{
    if parts.len() == 1 {
        law_replaced_nowhere(parts[0], current, name);
    } else {
        let rest = parts.drop_first();
        lemma_woven(rest, current, name);
        law_replaced_first(parts[0], current, woven(rest, current), name);
    }
}

/// A directory that is renamed is the one that replacing gives.
proof fn lemma_renames(old: Seq<char>, current: Seq<char>, name: Seq<char>, new: Seq<char>)
    requires
        current.len() > 0,
        renames(old, current, name, new),
    ensures
        replaced(old, current, name) == new,
{
    let parts = choose|parts: Seq<Seq<char>>| #[trigger]
        leftmost(parts, current) && old == woven(parts, current) && new == woven(parts, name);
    lemma_woven(parts, current, name);
}

/// What `rename` does: the directory of the first pane is moved to the one with the new name, every
/// pane is sent to its directory with the new name, in order, and the session is renamed and attached
/// to in the new directory.
pub proof fn law_rename_moves_along(
    config: ConfigView,
    environment: EnvironmentView,
    step: StepView,
    name: Seq<char>,
    current: Seq<char>,
    panes: Seq<PaneView>,
    moved: Seq<Seq<char>>,
    first: ReplyView,
    second: ReplyView,
)
    requires
        begins(RequestView::Rename(name), config, environment, step),
        current.len() > 0,
        bare(current),
        prints(first, current + seq!['\n']),
        panes.len() > 0,
        forall|i: int| 0 <= i < panes.len() ==> separable(#[trigger] panes[i]),
        panes[0].index.len() > 0,
        !is_white(panes[0].index.first()),
        panes.last().cwd.len() > 0 ==> !is_white(panes.last().cwd.last()),
        forall|i: int, j: int|
            0 <= i < j < panes.len() ==> (#[trigger] panes[i]).index != (#[trigger] panes[j]).index,
        moved.len() == panes.len(),
        forall|i: int|
            0 <= i < panes.len() ==> renames(panes[i].cwd, current, name, #[trigger] moved[i]),
        prints(second, printed(lines_for(panes))),
    ensures
        only_asks(run(step, Seq::<ReplyView>::empty()), "tmux display-message -p '#S'"@),
        only_asks(
            run(step, seq![first]),
            "tmux list-panes -s -F '#{window_index}.#{pane_index},#{pane_current_command},#{pane_current_path}'"@,
        ),
        run(step, seq![first, second]) == (RunView {
            effects: seq![EffectView::Run("mv"@, seq![panes[0].cwd, moved[0]])] + Seq::new(
                panes.len(),
                |i: int|
                    EffectView::Tmux(
                        "tmux send-keys -t "@ + panes[i].index + " \"cd "@ + moved[i]
                            + "\" Enter"@,
                    ),
            ) + seq![
                EffectView::Tmux("tmux rename-session "@ + name),
                EffectView::Tmux("tmux attach -c "@ + moved[0]),
            ],
            next: NextView::Finish(Ok(SubCommandGivenView::Yes)),
        }),
{
    let listing = printed(lines_for(panes));
    let text = current + seq!['\n'];
    lemma_rename_begins(config, environment, step, name);
    lemma_rename_asks(name, first, text);
    law_panes_are_read_back(panes);
    lemma_current(current);
    law_rename(name, first, text, second, listing);
    lemma_rename_effects(panes, current, name, moved);
}

/// The current session is read without the line feed.
proof fn lemma_current(current: Seq<char>)
    requires
        bare(current),
    ensures
        trimmed(current + seq!['\n']) == current,
{
    let none = Seq::<char>::empty();
    let feed = seq!['\n'];
    assert(is_white('\n'));
    assert(forall|i: int| 0 <= i < feed.len() ==> #[trigger] feed[i] == '\n');
    law_trimmed_between(none, current, feed);
    assert(none + current + feed == current + feed);
}

/// Where `rename` begins.
proof fn lemma_rename_begins(
    config: ConfigView,
    environment: EnvironmentView,
    step: StepView,
    name: Seq<char>,
)
    requires
        begins(RequestView::Rename(name), config, environment, step),
    ensures
        step == rename_begin(name),
{
}

/// What `rename` asks.
proof fn lemma_rename_asks(name: Seq<char>, first: ReplyView, text: Seq<char>)
    requires
        prints(first, text),
    ensures
        only_asks(
            run(rename_begin(name), Seq::<ReplyView>::empty()),
            "tmux display-message -p '#S'"@,
        ),
        only_asks(
            run(rename_begin(name), seq![first]),
            "tmux list-panes -s -F '#{window_index}.#{pane_index},#{pane_current_command},#{pane_current_path}'"@,
        ),
{
    lemma_run_on(rename_begin(name), Seq::<ReplyView>::empty(), first);
    assert(seq![first] =~= Seq::<ReplyView>::empty().push(first));
}

/// What renaming takes, with the directories known.
proof fn lemma_rename_effects(
    panes: Seq<PaneView>,
    current: Seq<char>,
    name: Seq<char>,
    moved: Seq<Seq<char>>,
)
    requires
        current.len() > 0,
        panes.len() > 0,
        forall|i: int, j: int|
            0 <= i < j < panes.len() ==> (#[trigger] panes[i]).index != (#[trigger] panes[j]).index,
        moved.len() == panes.len(),
        forall|i: int|
            0 <= i < panes.len() ==> renames(panes[i].cwd, current, name, #[trigger] moved[i]),
    ensures
        rename_effects(panes, current, name) == seq![
            EffectView::Run("mv"@, seq![panes[0].cwd, moved[0]]),
        ] + Seq::new(
            panes.len(),
            |i: int|
                EffectView::Tmux(
                    "tmux send-keys -t "@ + panes[i].index + " \"cd "@ + moved[i] + "\" Enter"@,
                ),
        ) + seq![
            EffectView::Tmux("tmux rename-session "@ + name),
            EffectView::Tmux("tmux attach -c "@ + moved[0]),
        ],
{
    assert forall|i: int| 0 <= i < panes.len() implies cwd_of(panes, (#[trigger] panes[i]).index)
        == panes[i].cwd && replaced(panes[i].cwd, current, name) == moved[i] by {
        law_panes_are_told_apart(panes, i);
        assert(renames(panes[i].cwd, current, name, moved[i]));
        lemma_renames(panes[i].cwd, current, name, moved[i]);
    }
    assert(cwd_of(panes, panes[0].index) == panes[0].cwd);
    assert(rename_effects(panes, current, name) =~= seq![
        EffectView::Run("mv"@, seq![panes[0].cwd, moved[0]]),
    ] + Seq::new(
        panes.len(),
        |i: int|
            EffectView::Tmux(
                "tmux send-keys -t "@ + panes[i].index + " \"cd "@ + moved[i] + "\" Enter"@,
            ),
    ) + seq![
        EffectView::Tmux("tmux rename-session "@ + name),
        EffectView::Tmux("tmux attach -c "@ + moved[0]),
    ]);
}

/// Where an index is listed more than once, the last line counts.
pub proof fn law_last_line_counts(panes: Seq<PaneView>, pane: PaneView, other: Seq<char>)
    ensures
        cwd_of(panes.push(pane), pane.index) == pane.cwd,
        other != pane.index ==> cwd_of(panes.push(pane), other) == cwd_of(panes, other),
{
    assert(panes.push(pane).drop_last() =~= panes);
}

} // verus!
