//! `switch` and `windows`: have the user choose a session or a window, and go there.

use crate::config::opt_view;
use crate::protocol::{
    ask, ask_tmux, asking, asking_tmux, done, effect_views, fail, failed, finish, only, Effect,
    EffectView, Pick, Query, QueryView, Step, StepView, TmsError, Waiting, WaitingView,
};
use crate::text::{
    char_replaced, concat2, pieces, remove_char, replace, replace_char, replaced, split_on, trim,
    trimmed, views, without,
};
use vstd::prelude::*;

verus! {

/// The command that lists what there is to choose from.
pub open spec fn list_command(pick: Pick) -> Seq<char> {
    match pick {
        Pick::Session => "tmux list-sessions -F '#{?session_attached,,#{session_name}}"@,
        Pick::Window => "tmux list-windows -F '#{?window_attached,,#{window_name}}"@,
    }
}

/// The command that goes to what was chosen, up to its name.
pub open spec fn go_command(pick: Pick) -> Seq<char> {
    match pick {
        Pick::Session => "tmux switch-client -t "@,
        Pick::Window => "tmux select-window -t "@,
    }
}

/// The choices in a listing: its lines, without quotes and without the white space at both ends. Two
/// line feeds in a row, as an attached entry leaves them, count as one.
pub open spec fn choices_in(output: Seq<char>) -> Seq<Seq<char>> {
    pieces(trimmed(replaced(without(output, '\''), "\n\n"@, "\n"@)), '\n')
}

/// The first step: ask for the listing.
pub open spec fn pick_begin(pick: Pick) -> StepView {
    asking_tmux(list_command(pick), WaitingView::PickList(pick))
}

/// With the listing known: have the user choose.
pub open spec fn pick_after_list(pick: Pick, output: Seq<char>) -> StepView {
    asking(
        QueryView::Select(choices_in(output), "tmux capture-pane -ept {}"@),
        WaitingView::PickChoice(pick),
    )
}

/// With the choice known: go there, if one was made.
pub open spec fn pick_after_choice(
    pick: Pick,
    choice: Result<Option<Seq<char>>, TmsError>,
) -> StepView {
    match choice {
        Ok(Some(chosen)) => done(
            seq![EffectView::Tmux(go_command(pick) + char_replaced(chosen, '.', '_'))],
        ),
        Ok(None) => done(Seq::<EffectView>::empty()),
        Err(e) => failed(Seq::<EffectView>::empty(), only(e)),
    }
}

/// The choices in a listing.
pub fn read_choices(output: &str) -> (r: Vec<String>)
    ensures
        views(r@) == choices_in(output@),
{
    let unquoted = remove_char(output, '\'');
    let closed_up = replace(unquoted.as_str(), "\n\n", "\n");
    let body = trim(closed_up.as_str());
    split_on(body.as_str(), '\n')
}

/// The first step of `switch` and of `windows`.
pub fn begin(pick: Pick) -> (r: Step)
    ensures
        r@ == pick_begin(pick),
{
    match pick {
        Pick::Session => ask_tmux(
            "tmux list-sessions -F '#{?session_attached,,#{session_name}}",
            Waiting::PickList(pick),
        ),
        Pick::Window => ask_tmux(
            "tmux list-windows -F '#{?window_attached,,#{window_name}}",
            Waiting::PickList(pick),
        ),
    }
}

/// Goes on when the listing has been printed.
pub fn after_list(pick: Pick, output: &str) -> (r: Step)
    ensures
        r@ == pick_after_list(pick, output@),
{
    let choices = read_choices(output);
    ask(
        Query::Select(choices, "tmux capture-pane -ept {}".to_owned()),
        Waiting::PickChoice(pick),
    )
}

/// Goes on when the user has chosen.
pub fn after_choice(pick: Pick, choice: Result<Option<String>, TmsError>) -> (r: Step)
    ensures
        r@ == pick_after_choice(
            pick,
            match choice {
                Ok(chosen) => Ok(opt_view(chosen)),
                Err(e) => Err(e),
            },
        ),
{
    match choice {
        Err(e) => fail(e),
        Ok(chosen) => {
            let mut effects: Vec<Effect> = Vec::new();
            assert(effect_views(effects@) =~= Seq::<EffectView>::empty());
            if let Some(name) = chosen {
                let target = replace_char(name.as_str(), '.', '_');
                let command = match pick {
                    Pick::Session => concat2("tmux switch-client -t ", target.as_str()),
                    Pick::Window => concat2("tmux select-window -t ", target.as_str()),
                };
                effects.push(Effect::Tmux(command));
                assert(effect_views(effects@) =~= seq![EffectView::Tmux(command@)]);
            }
            finish(effects)
        },
    }
}

} // verus!
