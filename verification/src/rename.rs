//! `rename`: rename the current session and its working directory.

use crate::protocol::{
    ask_tmux, asking_tmux, done, effect_views, finish, Effect, EffectView, Step, StepView, Waiting,
    WaitingView,
};
use crate::text::{
    concat2, concat3, lemma_pieces_nonempty, pieces, replace, replaced, same_text, split_on, trim,
    trimmed, views,
};
use vstd::prelude::*;

verus! {

/// A pane of the current session.
pub struct Pane {
    pub index: String,
    pub command: String,
    pub cwd: String,
}

pub struct PaneView {
    pub index: Seq<char>,
    pub command: Seq<char>,
    pub cwd: Seq<char>,
}

impl View for Pane {
    type V = PaneView;

    open spec fn view(&self) -> PaneView {
        PaneView { index: self.index@, command: self.command@, cwd: self.cwd@ }
    }
}

/// The views of a list of panes.
pub open spec fn pane_views(panes: Seq<Pane>) -> Seq<PaneView> {
    panes.map_values(|p: Pane| p@)
}

/// A line of the listing has at least an index, a command and a directory.
pub open spec fn describes_pane(line: Seq<char>) -> bool {
    pieces(line, ',').len() >= 3
}

/// The pane that a line of the listing describes.
pub open spec fn pane_in(line: Seq<char>) -> PaneView {
    let fields = pieces(line, ',');
    PaneView { index: fields[0], command: fields[1], cwd: fields[2] }
}

/// The lines of the listing.
pub open spec fn pane_lines(output: Seq<char>) -> Seq<Seq<char>> {
    pieces(trimmed(output), '\n')
}

/// Every line of the listing describes a pane.
pub open spec fn lists_panes(output: Seq<char>) -> bool {
    forall|i: int|
        0 <= i < pane_lines(output).len() ==> describes_pane(#[trigger] pane_lines(output)[i])
}

/// The panes in the listing.
pub open spec fn panes_in(output: Seq<char>) -> Seq<PaneView> {
    pane_lines(output).map_values(|line: Seq<char>| pane_in(line))
}

/// The directory of the pane `index`. Where an index is listed more than once, the last line counts.
pub open spec fn cwd_of(panes: Seq<PaneView>, index: Seq<char>) -> Seq<char>
    decreases panes.len(),
{
    if panes.len() == 0 {
        Seq::<char>::empty()
    } else if panes.last().index == index {
        panes.last().cwd
    } else {
        cwd_of(panes.drop_last(), index)
    }
}

/// The directory of the pane `index` once the session `current` is called `name`.
pub open spec fn moved_cwd(
    panes: Seq<PaneView>,
    index: Seq<char>,
    current: Seq<char>,
    name: Seq<char>,
) -> Seq<char> {
    replaced(cwd_of(panes, index), current, name)
}

/// Has the pane `index` change to its new directory.
pub open spec fn change_directory(
    panes: Seq<PaneView>,
    index: Seq<char>,
    current: Seq<char>,
    name: Seq<char>,
) -> EffectView {
    EffectView::Tmux(
        "tmux send-keys -t "@ + index + " \"cd "@ + moved_cwd(panes, index, current, name)
            + "\" Enter"@,
    )
}

/// What renaming the session `current` to `name` takes: move the directory of the first pane, have
/// every pane follow, rename the session, and attach to it in the new directory.
pub open spec fn rename_effects(
    panes: Seq<PaneView>,
    current: Seq<char>,
    name: Seq<char>,
) -> Seq<EffectView> {
    let first = panes[0].index;
    let new_path = moved_cwd(panes, first, current, name);
    seq![EffectView::Run("mv"@, seq![cwd_of(panes, first), new_path])] + panes.map_values(
        |p: PaneView| change_directory(panes, p.index, current, name),
    ) + seq![
        EffectView::Tmux("tmux rename-session "@ + name),
        EffectView::Tmux("tmux attach -c "@ + new_path),
    ]
}

/// The first step: ask for the current session.
pub open spec fn rename_begin(name: Seq<char>) -> StepView {
    asking_tmux("tmux display-message -p '#S'"@, WaitingView::RenameCurrent { name })
}

/// With the current session known: ask for its panes.
pub open spec fn rename_after_current(name: Seq<char>, output: Seq<char>) -> StepView {
    asking_tmux(
        "tmux list-panes -s -F '#{window_index}.#{pane_index},#{pane_current_command},#{pane_current_path}'"@,
        WaitingView::RenamePanes { name, current: trimmed(output) },
    )
}

/// With the panes known: rename.
pub open spec fn rename_after_panes(
    name: Seq<char>,
    current: Seq<char>,
    output: Seq<char>,
) -> StepView {
    done(rename_effects(panes_in(output), current, name))
}

/// Whether every line of the listing describes a pane.
pub fn is_pane_list(output: &str) -> (r: bool)
    ensures
        r == lists_panes(output@),
{
    let body = trim(output);
    let rows = split_on(body.as_str(), '\n');
    assert(views(rows@) == pane_lines(output@));
    let mut i: usize = 0;
    while i < rows.len()
        invariant
            i <= rows.len(),
            views(rows@) == pane_lines(output@),
            forall|j: int| 0 <= j < i ==> describes_pane(#[trigger] pane_lines(output@)[j]),
        decreases rows.len() - i,
    {
        let fields = split_on(rows[i].as_str(), ',');
        assert(views(fields@).len() == fields@.len());
        assert(pane_lines(output@)[i as int] == rows@[i as int]@);
        if fields.len() < 3 {
            assert(!describes_pane(pane_lines(output@)[i as int]));
            return false;
        }
        i += 1;
    }
    assert(views(rows@).len() == rows@.len());
    true
}

/// The panes in the listing.
pub fn read_panes(output: &str) -> (r: Vec<Pane>)
    requires
        lists_panes(output@),
    ensures
        pane_views(r@) == panes_in(output@),
        r.len() > 0,
{
    let body = trim(output);
    let rows = split_on(body.as_str(), '\n');
    assert(views(rows@) == pane_lines(output@));
    let mut panes: Vec<Pane> = Vec::new();
    let mut i: usize = 0;
    while i < rows.len()
        invariant
            i <= rows.len(),
            views(rows@) == pane_lines(output@),
            lists_panes(output@),
            pane_views(panes@) == panes_in(output@).take(i as int),
        decreases rows.len() - i,
    {
        let fields = split_on(rows[i].as_str(), ',');
        assert(pane_lines(output@)[i as int] == rows@[i as int]@);
        assert(describes_pane(pane_lines(output@)[i as int]));
        assert(views(fields@).len() == fields@.len());
        let pane = Pane {
            index: fields[0].clone(),
            command: fields[1].clone(),
            cwd: fields[2].clone(),
        };
        assert(pane@ == panes_in(output@)[i as int]);
        let ghost before = pane_views(panes@);
        panes.push(pane);
        assert(pane_views(panes@) =~= before.push(pane@));
        i += 1;
    }
    proof {
        lemma_pieces_nonempty(trimmed(output@), '\n');
        assert(views(rows@).len() == rows@.len());
        assert(panes_in(output@).take(i as int) =~= panes_in(output@));
        assert(pane_views(panes@).len() == panes@.len());
    }
    panes
}

/// The directory of the pane `index`.
fn find_cwd(panes: &Vec<Pane>, index: &str) -> (r: String)
    ensures
        r@ == cwd_of(pane_views(panes@), index@),
{
    let mut i: usize = panes.len();
    assert(pane_views(panes@).take(i as int) =~= pane_views(panes@));
    while i > 0
        invariant
            i <= panes.len(),
            cwd_of(pane_views(panes@).take(i as int), index@) == cwd_of(
                pane_views(panes@),
                index@,
            ),
        decreases i,
    {
        assert(pane_views(panes@).take(i as int).last() == panes@[i - 1]@);
        assert(pane_views(panes@).take(i as int).drop_last() =~= pane_views(panes@).take(i - 1));
        if same_text(panes[i - 1].index.as_str(), index) {
            return panes[i - 1].cwd.clone();
        }
        i -= 1;
    }
    String::new()
}

/// What renaming takes.
pub fn plan_rename(panes: &Vec<Pane>, current: &str, name: &str) -> (r: Vec<Effect>)
    requires
        panes.len() > 0,
    ensures
        effect_views(r@) == rename_effects(pane_views(panes@), current@, name@),
{
    let ghost all = pane_views(panes@);
    let ghost follow = all.map_values(
        |p: PaneView| change_directory(all, p.index, current@, name@),
    );
    let old_path = find_cwd(panes, panes[0].index.as_str());
    let new_path = replace(old_path.as_str(), current, name);
    let mut move_args: Vec<String> = Vec::new();
    move_args.push(old_path);
    move_args.push(new_path.clone());
    assert(views(move_args@) =~= seq![old_path@, new_path@]);
    let mut effects: Vec<Effect> = Vec::new();
    effects.push(Effect::Run("mv".to_owned(), move_args));
    let ghost start = seq![EffectView::Run("mv"@, seq![old_path@, new_path@])];
    assert(effect_views(effects@) =~= start + follow.take(0));
    let mut i: usize = 0;
    while i < panes.len()
        invariant
            i <= panes.len(),
            all == pane_views(panes@),
            follow == all.map_values(
                |p: PaneView| change_directory(all, p.index, current@, name@),
            ),
            effect_views(effects@) == start + follow.take(i as int),
        decreases panes.len() - i,
    {
        let index = panes[i].index.as_str();
        let cwd = find_cwd(panes, index);
        let new_cwd = replace(cwd.as_str(), current, name);
        let mut command = concat3("tmux send-keys -t ", index, " \"cd ");
        command.append(new_cwd.as_str());
        command.append("\" Enter");
        let ghost before = effect_views(effects@);
        effects.push(Effect::Tmux(command));
        assert(effect_views(effects@) =~= before.push(EffectView::Tmux(command@)));
        assert(follow[i as int] == EffectView::Tmux(command@));
        assert(follow.take(i + 1) =~= follow.take(i as int).push(follow[i as int]));
        i += 1;
    }
    let ghost before = effect_views(effects@);
    assert(follow.take(i as int) =~= follow);
    effects.push(Effect::Tmux(concat2("tmux rename-session ", name)));
    effects.push(Effect::Tmux(concat2("tmux attach -c ", new_path.as_str())));
    assert(effect_views(effects@) =~= before + seq![
        EffectView::Tmux("tmux rename-session "@ + name@),
        EffectView::Tmux("tmux attach -c "@ + new_path@),
    ]);
    effects
}

/// The first step of `rename`.
pub fn begin(name: String) -> (r: Step)
    ensures
        r@ == rename_begin(name@),
{
    ask_tmux("tmux display-message -p '#S'", Waiting::RenameCurrent { name })
}

/// Goes on when the current session has been printed.
pub fn after_current(name: String, output: &str) -> (r: Step)
    ensures
        r@ == rename_after_current(name@, output@),
{
    ask_tmux(
        "tmux list-panes -s -F '#{window_index}.#{pane_index},#{pane_current_command},#{pane_current_path}'",
        Waiting::RenamePanes { name, current: trim(output) },
    )
}

/// Goes on when the panes have been printed.
pub fn after_panes(name: String, current: String, output: &str) -> (r: Step)
    requires
        lists_panes(output@),
    ensures
        r@ == rename_after_panes(name@, current@, output@),
{
    let panes = read_panes(output);
    finish(plan_rename(&panes, current.as_str(), name.as_str()))
}

} // verus!
