//! Laws of `switch` and `windows`: what they offer and do, from what `tmux` prints.

use crate::config::ConfigView;
use crate::expansion::EnvironmentView;
use crate::handle::begins;
use crate::laws::{law_choices_are_the_entries, law_pick, law_pick_nothing, prints, run, RunView};
use crate::output_laws::{
    bare, law_printed_pieces, lemma_fewer_rows, lemma_unquoted, on_lines, printed,
};
use crate::pick::{choices_in, pick_begin};
use crate::protocol::{
    EffectView, NextView, Pick, QueryView, ReplyView, StepView, SubCommandGivenView,
};
use crate::request::RequestView;
use crate::session_laws::only_asks;
use crate::text::{char_replaced, is_white, without};
use crate::text_laws::{
    filled_pieces, law_char_replaced_in_place, law_without, law_without_parts, no_three, not_empty,
    tight,
};
use vstd::prelude::*;

verus! {

/// `entries` with a quote before each, or as they are.
pub open spec fn rows_for(entries: Seq<Seq<char>>, quoted: bool) -> Seq<Seq<char>> {
    if quoted {
        entries.map_values(|entry: Seq<char>| seq!['\''] + entry)
    } else {
        entries
    }
}

/// Entries that can be told apart in a listing: no quotes, no white space at the ends, and no two in a
/// row that are empty. An entry is empty where it is attached.
pub open spec fn well_listed(entries: Seq<Seq<char>>) -> bool {
    &&& on_lines(entries)
    &&& forall|i: int|
        0 <= i < entries.len() ==> !(#[trigger] entries[i]).contains('\'') && bare(entries[i])
    &&& forall|i: int|
        0 < i < entries.len() ==> (#[trigger] entries[i]).len() > 0 || entries[i - 1].len() > 0
}

/// All entries but the first are well listed too.
proof fn lemma_fewer_entries(entries: Seq<Seq<char>>)
    requires
        well_listed(entries),
        entries.len() > 0,
    ensures
        well_listed(entries.drop_first()),
        entries == seq![entries[0]] + entries.drop_first(),
{
    let rest = entries.drop_first();
    lemma_fewer_rows(entries);
    assert forall|i: int| 0 <= i < rest.len() implies !(#[trigger] rest[i]).contains('\'') && bare(
        rest[i],
    ) by {
        assert(rest[i] == entries[i + 1]);
    }
    assert forall|i: int| 0 < i < rest.len() implies (#[trigger] rest[i]).len() > 0 || rest[i
        - 1].len() > 0 by {
        assert(rest[i] == entries[i + 1]);
    }
}

/// Without its quotes, a listing is that of the entries.
proof fn lemma_without_quotes(entries: Seq<Seq<char>>, quoted: bool)
    requires
        well_listed(entries),
    ensures
        without(printed(rows_for(entries, quoted)), '\'') == printed(entries),
    decreases entries.len(),
{
    reveal(printed);
    let rows = rows_for(entries, quoted);
    if entries.len() == 0 {
        law_without(Seq::<char>::empty(), '\'');
        assert(!Seq::<char>::empty().contains('\''));
    } else {
        let entry = entries[0];
        let rest = entries.drop_first();
        let feed = seq!['\n'];
        lemma_fewer_entries(entries);
        lemma_without_quotes(rest, quoted);
        assert(rows.drop_first() =~= rows_for(rest, quoted));
        assert(!entry.contains('\''));
        assert(without(rows[0], '\'') == entry) by {
            lemma_unquoted(entry);
            law_without(entry, '\'');
        }
        law_without_parts(rows[0], feed, '\n', '\'');
        law_without_parts(rows[0] + feed, printed(rows.drop_first()), '\n', '\'');
    }
}

/// There are no three line feeds in a row.
proof fn lemma_no_three(entries: Seq<Seq<char>>)
    requires
        well_listed(entries),
    ensures
        no_three(printed(entries), '\n'),
        entries.len() > 0 ==> printed(entries).len() > 0,
        entries.len() > 0 && entries[0].len() > 0 ==> printed(entries)[0] != '\n',
        entries.len() > 0 && entries[0].len() == 0 && printed(entries).len() > 1
            ==> printed(entries)[1] != '\n',
    decreases entries.len(),
{
    reveal(printed);
    if entries.len() > 0 {
        let entry = entries[0];
        let rest = entries.drop_first();
        let tail = printed(rest);
        let all = printed(entries);
        let n = entry.len();
        lemma_fewer_entries(entries);
        lemma_no_three(rest);
        assert(all == entry + seq!['\n'] + tail);
        assert(!entry.contains('\n')) by {
            reveal(on_lines);
        }
        assert forall|i: int| 0 <= i < n implies #[trigger] all[i] != '\n' by {
            assert(all[i] == entry[i]);
        }
        assert(forall|i: int| n < i < all.len() ==> #[trigger] all[i] == tail[i - n - 1]);
        if rest.len() > 0 && n == 0 {
            assert(entries[1] == rest[0]);
            assert(entries[1].len() > 0 || entries[0].len() > 0);
        }
        if rest.len() == 0 {
            assert(tail.len() == 0);
        }
        assert forall|i: int| 1 < i < all.len() implies !(all[i - 2] == '\n' && all[i - 1] == '\n'
            && #[trigger] all[i] == '\n') by {
            if i - 2 > n {
                assert(tail[i - n - 1] == all[i]);
            } else if i - 2 == n {
                assert(all[i - 1] == tail[0]);
                assert(all[i] == tail[1]);
            }
        }
    }
}

/// The filled pieces of a listing are the entries that are not empty.
proof fn lemma_entries(entries: Seq<Seq<char>>)
    requires
        well_listed(entries),
    ensures
        filled_pieces(printed(entries), '\n') == entries.filter(not_empty()),
        tight(printed(entries), '\n'),
{
    let none = Seq::<char>::empty();
    law_printed_pieces(entries);
    assert(entries.push(none).filter(not_empty()) == entries.filter(not_empty())) by {
        reveal(Seq::filter);
        assert(entries.push(none).drop_last() =~= entries);
    }
    let filled = filled_pieces(printed(entries), '\n');
    assert forall|i: int| 0 <= i < filled.len() implies bare(#[trigger] filled[i])
        && filled[i].len() > 0 by {
        entries.lemma_filter_pred(not_empty(), i);
        assert(entries.filter(not_empty()).contains(filled[i]));
        entries.lemma_filter_contains_rev(not_empty(), filled[i]);
        let k = choose|k: int| 0 <= k < entries.len() && entries[k] == filled[i];
        assert(bare(entries[k]));
    }
    assert forall|i: int| 0 <= i < filled.len() implies !is_white(
        (#[trigger] filled[i]).first(),
    ) && !is_white(filled[i].last()) by {
        assert(bare(filled[i]));
    }
}

/// What is offered for a listing: the entries that are not empty, in order; one empty choice where
/// there are none.
pub proof fn law_entries_are_offered(entries: Seq<Seq<char>>, quoted: bool)
    requires
        well_listed(entries),
    ensures
        choices_in(printed(rows_for(entries, quoted))) == if entries.filter(not_empty()).len() > 0 {
            entries.filter(not_empty())
        } else {
            seq![Seq::<char>::empty()]
        },
{
    lemma_without_quotes(entries, quoted);
    lemma_no_three(entries);
    lemma_entries(entries);
    law_choices_are_the_entries(printed(rows_for(entries, quoted)));
}

/// Where `switch` and `windows` begin.
proof fn lemma_pick_begins(
    pick: Pick,
    config: ConfigView,
    environment: EnvironmentView,
    step: StepView,
)
    requires
        begins(
            if pick == Pick::Session {
                RequestView::Switch
            } else {
                RequestView::Windows
            },
            config,
            environment,
            step,
        ),
    ensures
        step == pick_begin(pick),
        only_asks(
            run(step, Seq::<ReplyView>::empty()),
            if pick == Pick::Session {
                "tmux list-sessions -F '#{?session_attached,,#{session_name}}"@
            } else {
                "tmux list-windows -F '#{?window_attached,,#{window_name}}"@
            },
        ),
{
}

/// `switch` and `windows` list what there is, offer all of it that is not attached, and go to what is
/// chosen: its name is handed on with an underscore for each dot and every other character as it is.
/// Where nothing is chosen, nothing is done.
pub proof fn law_the_chosen_is_gone_to(
    pick: Pick,
    config: ConfigView,
    environment: EnvironmentView,
    step: StepView,
    entries: Seq<Seq<char>>,
    quoted: bool,
    first: ReplyView,
    chosen: Seq<char>,
    target: Seq<char>,
)
    requires
        begins(
            if pick == Pick::Session {
                RequestView::Switch
            } else {
                RequestView::Windows
            },
            config,
            environment,
            step,
        ),
        well_listed(entries),
        entries.filter(not_empty()).len() > 0,
        prints(first, printed(rows_for(entries, quoted))),
        target.len() == chosen.len(),
        forall|i: int|
            0 <= i < chosen.len() ==> #[trigger] target[i] == if chosen[i] == '.' {
                '_'
            } else {
                chosen[i]
            },
    ensures
        only_asks(
            run(step, Seq::<ReplyView>::empty()),
            if pick == Pick::Session {
                "tmux list-sessions -F '#{?session_attached,,#{session_name}}"@
            } else {
                "tmux list-windows -F '#{?window_attached,,#{window_name}}"@
            },
        ),
        run(step, seq![first]).effects.len() == 0,
        run(step, seq![first]).next matches NextView::Ask(query, _) && query == QueryView::Select(
            entries.filter(not_empty()),
            "tmux capture-pane -ept {}"@,
        ),
        run(step, seq![first, ReplyView::Selection(Ok(Some(chosen)))]) == (RunView {
            effects: seq![
                EffectView::Tmux(
                    if pick == Pick::Session {
                        "tmux switch-client -t "@ + target
                    } else {
                        "tmux select-window -t "@ + target
                    },
                ),
            ],
            next: NextView::Finish(Ok(SubCommandGivenView::Yes)),
        }),
        run(step, seq![first, ReplyView::Selection(Ok(None))]) == (RunView {
            effects: Seq::<EffectView>::empty(),
            next: NextView::Finish(Ok(SubCommandGivenView::Yes)),
        }),
{
    let listing = printed(rows_for(entries, quoted));
    lemma_pick_begins(pick, config, environment, step);
    law_entries_are_offered(entries, quoted);
    law_pick(pick, first, listing, chosen);
    law_pick_nothing(pick, first, listing);
    law_char_replaced_in_place(chosen, '.', '_');
    assert(char_replaced(chosen, '.', '_') =~= target);
}

} // verus!
