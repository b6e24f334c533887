//! Laws of `config`.

use crate::config::{ConfigView, SearchDirectory};
use crate::configure::{
    can_remove, changed, config_step, extended, first_missing, names_in, not_among, paths_expand,
    reduced, search_paths, without_slash,
};
use crate::expansion::{expands, EnvironmentView, MissingView};
use crate::expansion_laws::{clear, law_clear_paths, law_plain_paths, standard_expansion};
use crate::laws::{ended, lemma_run_on, run, RunView};
use crate::protocol::{
    not_found, only, EffectView, NextView, QueryView, ReplyView, SearchPathView, StepView,
    SubCommandGivenView, TmsError, WaitingView,
};
use crate::request::{ConfigArgsView, RequestView};
use crate::text_laws::{
    law_char_replaced, law_char_replaced_in_place, law_pieces_at_separator, law_pieces_whole,
};
use std::path::PathBuf;
use crate::handle::begins;
use crate::text::pieces;
use vstd::prelude::*;

verus! {

/// Arguments that ask for nothing.
pub open spec fn no_args() -> ConfigArgsView {
    ConfigArgsView {
        max_depths: Seq::<usize>::empty(),
        search_paths: None,
        default_session: None,
        display_full_path: None,
        search_submodules: None,
        recursive_submodules: None,
        excluded_dirs: None,
        removed_dirs: None,
    }
}

/// What is not asked for stays as it is, whatever else is asked for; the sessions always do.
pub proof fn law_the_rest_stays(
    config: ConfigView,
    args: ConfigArgsView,
    dirs: Option<Seq<SearchDirectory>>,
)
    ensures
        changed(config, no_args(), None) == config,
        changed(config, args, dirs).sessions == config.sessions,
        dirs is None ==> changed(config, args, dirs).search_dirs == config.search_dirs,
        args.default_session is None ==> changed(config, args, dirs).default_session
            == config.default_session,
        args.display_full_path is None ==> changed(config, args, dirs).display_full_path
            == config.display_full_path,
        args.search_submodules is None ==> changed(config, args, dirs).search_submodules
            == config.search_submodules,
        args.recursive_submodules is None ==> changed(config, args, dirs).recursive_submodules
            == config.recursive_submodules,
        args.excluded_dirs is None && args.removed_dirs is None ==> changed(
            config,
            args,
            dirs,
        ).excluded_dirs == config.excluded_dirs,
{
}

/// The default session is stored under a name without dots, as `tmux` would call it.
pub proof fn law_default_session_has_no_dots(
    config: ConfigView,
    args: ConfigArgsView,
    dirs: Option<Seq<SearchDirectory>>,
)
    requires
        args.default_session is Some,
    ensures
        changed(config, args, dirs).default_session is Some,
        !changed(config, args, dirs).default_session->0.contains('.'),
        !args.default_session->0.contains('.') ==> changed(config, args, dirs).default_session
            == args.default_session,
{
    law_char_replaced(args.default_session->0, '.', '_');
}

/// A directory is excluded in the end if and only if it was before or is added, and is not removed.
pub proof fn law_excluded_in_the_end(
    config: ConfigView,
    args: ConfigArgsView,
    dirs: Option<Seq<SearchDirectory>>,
    dir: Seq<char>,
)
    ensures
        ({
            let before = config.excluded_dirs;
            let after = changed(config, args, dirs).excluded_dirs;
            let listed = before is Some && before->0.contains(dir);
            let added = args.excluded_dirs is Some && args.excluded_dirs->0.contains(dir);
            let removed = args.removed_dirs is Some && names_in(args.removed_dirs->0).contains(dir);
            (after is Some && after->0.contains(dir)) <==> (listed || added) && !removed
        }),
{
    let between = extended(config.excluded_dirs, args.excluded_dirs);
    if config.excluded_dirs is Some && args.excluded_dirs is Some {
        lemma_contains_either(config.excluded_dirs->0, args.excluded_dirs->0, dir);
    }
    if between is Some && args.removed_dirs is Some {
        let all = between->0;
        let pred = not_among(names_in(args.removed_dirs->0));
        if all.filter(pred).contains(dir) {
            all.lemma_filter_contains_rev(pred, dir);
            let i = all.filter(pred).index_of(dir);
            all.lemma_filter_pred(pred, i);
        }
        if all.contains(dir) && pred(dir) {
            let i = all.index_of(dir);
            all.lemma_filter_contains(pred, i);
        }
    }
}

/// Two lists hold what either of them does.
proof fn lemma_contains_either(a: Seq<Seq<char>>, b: Seq<Seq<char>>, x: Seq<char>)
    ensures
        (a + b).contains(x) <==> a.contains(x) || b.contains(x),
{
    if a.contains(x) {
        let i = a.index_of(x);
        assert((a + b)[i] == x);
    }
    if b.contains(x) {
        let i = b.index_of(x);
        assert((a + b)[a.len() + i] == x);
    }
}

/// Removing a directory undoes adding it, where it was not excluded before and its name holds no
/// space.
pub proof fn law_removing_undoes_adding(before: Seq<Seq<char>>, dir: Seq<char>)
    requires
        !before.contains(dir),
        !dir.contains(' '),
    ensures
        reduced(extended(Some(before), Some(seq![dir])), Some(seq![dir])) == Some(before),
{
    let pred = not_among(names_in(seq![dir]));
    law_pieces_whole(dir, ' ');
    reveal_with_fuel(names_in, 2);
    assert(seq![dir].drop_last() =~= Seq::<Seq<char>>::empty());
    assert(names_in(seq![dir]) =~= seq![dir]);
    assert(names_in(seq![dir])[0] == dir);
    reveal(Seq::filter);
    assert((before + seq![dir]).drop_last() =~= before);
    assert((before + seq![dir]).last() == dir);
    lemma_filter_keeps(before, pred);
}

/// A list all of whose items are wanted stays as it is.
proof fn lemma_filter_keeps(s: Seq<Seq<char>>, pred: spec_fn(Seq<char>) -> bool)
    requires
        forall|i: int| 0 <= i < s.len() ==> pred(#[trigger] s[i]),
    ensures
        s.filter(pred) == s,
    decreases s.len(),
{
    reveal(Seq::filter);
    if s.len() > 0 {
        assert(s[s.len() - 1] == s.last());
        assert forall|i: int| 0 <= i < s.drop_last().len() implies pred(
            #[trigger] s.drop_last()[i],
        ) by {
            assert(s[i] == s.drop_last()[i]);
        }
        lemma_filter_keeps(s.drop_last(), pred);
    }
}

/// The answers that give the canonical forms of some paths.
pub open spec fn canonical_replies(canonical: Seq<PathBuf>) -> Seq<ReplyView> {
    canonical.map_values(|path: PathBuf| ReplyView::Canonical(Some(path)))
}

/// The canonical paths with the depths of the paths they come from.
pub open spec fn resolved(
    paths: Seq<SearchPathView>,
    canonical: Seq<PathBuf>,
) -> Seq<SearchDirectory> {
    Seq::new(
        canonical.len(),
        |i: int| SearchDirectory { path: canonical[i], depth: paths[i].depth },
    )
}

/// As long as search paths are being resolved nothing is done, and the next one is asked for.
pub proof fn law_search_paths_are_resolved_in_order(
    config: ConfigView,
    args: ConfigArgsView,
    expansions: Seq<Result<Seq<char>, MissingView>>,
    canonical: Seq<PathBuf>,
)
    requires
        first_missing(expansions) is None,
        canonical.len() < expansions.len(),
    ensures
        ({
            let paths = search_paths(expansions, args.max_depths);
            run(config_step(config, args, Some(expansions)), canonical_replies(canonical)) == (
            RunView {
                effects: Seq::<EffectView>::empty(),
                next: NextView::Ask(
                    QueryView::Canonicalize(expansions[canonical.len() as int]->Ok_0),
                    WaitingView::ConfigPath {
                        config,
                        args,
                        paths,
                        found: resolved(paths, canonical),
                    },
                ),
            })
        }),
    decreases canonical.len(),
{
    let paths = search_paths(expansions, args.max_depths);
    let step = config_step(config, args, Some(expansions));
    if canonical.len() == 0 {
        assert(resolved(paths, canonical) =~= Seq::<SearchDirectory>::empty());
        assert(canonical_replies(canonical) =~= Seq::<ReplyView>::empty());
    } else {
        let before = canonical.drop_last();
        law_search_paths_are_resolved_in_order(config, args, expansions, before);
        lemma_run_on(step, canonical_replies(before), ReplyView::Canonical(Some(canonical.last())));
        assert(canonical_replies(canonical) =~= canonical_replies(before).push(
            ReplyView::Canonical(Some(canonical.last())),
        ));
        assert(resolved(paths, canonical) =~= resolved(paths, before).push(
            SearchDirectory {
                path: canonical.last(),
                depth: paths[before.len() as int].depth,
            },
        ));
        assert(run(step, canonical_replies(canonical)).effects =~= Seq::<EffectView>::empty());
    }
}

/// A whole run of `config` with search paths: once every path is resolved, the changed configuration
/// is to be stored, with the paths in the order they were given in; and only then is that said.
pub proof fn law_config_with_search_paths(
    config: ConfigView,
    args: ConfigArgsView,
    expansions: Seq<Result<Seq<char>, MissingView>>,
    canonical: Seq<PathBuf>,
)
    requires
        first_missing(expansions) is None,
        canonical.len() == expansions.len(),
    ensures
        ({
            let step = config_step(config, args, Some(expansions));
            let dirs = resolved(search_paths(expansions, args.max_depths), canonical);
            let replies = canonical_replies(canonical);
            &&& run(step, replies) == (RunView {
                effects: Seq::<EffectView>::empty(),
                next: NextView::Ask(
                    QueryView::SaveConfig(changed(config, args, Some(dirs))),
                    WaitingView::ConfigSaved,
                ),
            })
            &&& run(step, replies.push(ReplyView::Saved(true))) == ended(
                seq![EffectView::Print("Configuration has been stored"@)],
            )
            &&& run(step, replies.push(ReplyView::Saved(false))) == (RunView {
                effects: Seq::<EffectView>::empty(),
                next: NextView::Finish(Err(only(TmsError::ConfigError))),
            })
        }),
{
    let paths = search_paths(expansions, args.max_depths);
    let step = config_step(config, args, Some(expansions));
    let replies = canonical_replies(canonical);
    if canonical.len() == 0 {
        assert(resolved(paths, canonical) =~= Seq::<SearchDirectory>::empty());
        assert(replies =~= Seq::<ReplyView>::empty());
    } else {
        let before = canonical.drop_last();
        let last = ReplyView::Canonical(Some(canonical.last()));
        law_search_paths_are_resolved_in_order(config, args, expansions, before);
        lemma_run_on(step, canonical_replies(before), last);
        assert(replies =~= canonical_replies(before).push(last));
        assert(resolved(paths, canonical) =~= resolved(paths, before).push(
            SearchDirectory {
                path: canonical.last(),
                depth: paths[before.len() as int].depth,
            },
        ));
        assert(run(step, replies).effects =~= Seq::<EffectView>::empty());
    }
    lemma_run_on(step, replies, ReplyView::Saved(true));
    lemma_run_on(step, replies, ReplyView::Saved(false));
    assert(run(step, replies.push(ReplyView::Saved(true))).effects =~= seq![
        EffectView::Print("Configuration has been stored"@),
    ]);
    assert(run(step, replies.push(ReplyView::Saved(false))).effects =~= Seq::<EffectView>::empty());
}

/// A whole run of `config` without search paths: those there are stay.
pub proof fn law_config_without_search_paths(config: ConfigView, args: ConfigArgsView)
    ensures
        ({
            let step = config_step(config, args, None);
            &&& step.effects.len() == 0
            &&& step.next == NextView::Ask(
                QueryView::SaveConfig(changed(config, args, None)),
                WaitingView::ConfigSaved,
            )
            &&& run(step, seq![ReplyView::Saved(true)]) == ended(
                seq![EffectView::Print("Configuration has been stored"@)],
            )
        }),
{
    let step = config_step(config, args, None);
    lemma_run_on(step, Seq::<ReplyView>::empty(), ReplyView::Saved(true));
    assert(seq![ReplyView::Saved(true)] =~= Seq::<ReplyView>::empty().push(ReplyView::Saved(true)));
    assert(run(step, seq![ReplyView::Saved(true)]).effects =~= seq![
        EffectView::Print("Configuration has been stored"@),
    ]);
}

/// Where a search path cannot be expanded or resolved, nothing is stored and nothing is said: the run
/// ends with an error, after no question but those for the paths before it. An expansion that fails
/// is reported with the first variable that is missing.
pub proof fn law_bad_search_path_changes_nothing(
    config: ConfigView,
    args: ConfigArgsView,
    expansions: Seq<Result<Seq<char>, MissingView>>,
    canonical: Seq<PathBuf>,
)
    requires
        canonical.len() < expansions.len(),
    ensures
        ({
            let step = config_step(config, args, Some(expansions));
            &&& first_missing(expansions) matches Some(missing) ==> run(
                step,
                Seq::<ReplyView>::empty(),
            ) == (RunView {
                effects: Seq::<EffectView>::empty(),
                next: NextView::Finish(Err(not_found(missing))),
            })
            &&& first_missing(expansions) is None ==> run(
                step,
                canonical_replies(canonical).push(ReplyView::Canonical(None)),
            ) == (RunView {
                effects: Seq::<EffectView>::empty(),
                next: NextView::Finish(Err(only(TmsError::IoError))),
            })
        }),
{
    let step = config_step(config, args, Some(expansions));
    if first_missing(expansions) is None {
        law_search_paths_are_resolved_in_order(config, args, expansions, canonical);
        lemma_run_on(step, canonical_replies(canonical), ReplyView::Canonical(None));
        assert(run(
            step,
            canonical_replies(canonical).push(ReplyView::Canonical(None)),
        ).effects =~= Seq::<EffectView>::empty());
    }
}

/// Nothing is missing if and only if every path could be expanded; otherwise what is missing is what
/// the first of the others lacks.
pub proof fn law_first_missing(expansions: Seq<Result<Seq<char>, MissingView>>)
    ensures
        match first_missing(expansions) {
            None => forall|i: int| 0 <= i < expansions.len() ==> (#[trigger] expansions[i]) is Ok,
            Some(missing) => exists|i: int|
                0 <= i < expansions.len() && #[trigger] expansions[i] == Err::<
                    Seq<char>,
                    MissingView,
                >(missing) && first_missing(expansions.take(i)) is None,
        },
    decreases expansions.len(),
{
    if expansions.len() > 0 {
        let rest = expansions.drop_last();
        law_first_missing(rest);
        assert(forall|i: int| 0 <= i < rest.len() ==> #[trigger] rest[i] == expansions[i]);
        assert(expansions[expansions.len() - 1] == expansions.last());
        match first_missing(rest) {
            Some(missing) => {
                let i = choose|i: int|
                    0 <= i < rest.len() && #[trigger] rest[i] == Err::<Seq<char>, MissingView>(
                        missing,
                    ) && first_missing(rest.take(i)) is None;
                assert(rest.take(i) =~= expansions.take(i));
                assert(expansions[i] == Err::<Seq<char>, MissingView>(missing));
            },
            None => {
                assert(expansions.take(expansions.len() - 1) =~= rest);
                assert forall|i: int|
                    0 <= i < expansions.len() && first_missing(expansions) is None implies (
                #[trigger] expansions[i]) is Ok by {
                    if i < rest.len() {
                        assert(rest[i] is Ok);
                    }
                }
            },
        }
    }
}

/// Search paths that become the same by every reading are used as the environment has them, but for
/// one slash at the end.
pub proof fn law_search_paths_in_environment(
    paths: Seq<Seq<char>>,
    environment: EnvironmentView,
    expansions: Seq<Result<Seq<char>, MissingView>>,
)
    requires
        paths_expand(Some(paths), environment, Some(expansions)),
        forall|i: int|
            0 <= i < paths.len() ==> clear(without_slash(#[trigger] paths[i]), environment),
    ensures
        expansions == paths.map_values(
            |path: Seq<char>| standard_expansion(without_slash(path), environment),
        ),
{
    let known = paths.map_values(
        |path: Seq<char>| standard_expansion(without_slash(path), environment),
    );
    assert forall|i: int| 0 <= i < paths.len() implies #[trigger] expansions[i] == known[i] by {
        assert(clear(without_slash(paths[i]), environment));
        assert(expands(without_slash(paths[i]), environment, expansions[i]));
        law_clear_paths(without_slash(paths[i]), environment, expansions[i]);
    }
    assert(expansions =~= known);
}

/// What is asked for is what is stored, whatever was stored before.
pub proof fn law_what_is_asked_is_stored(
    config: ConfigView,
    args: ConfigArgsView,
    dirs: Option<Seq<SearchDirectory>>,
)
    ensures
        ({
            let after = changed(config, args, dirs);
            &&& dirs matches Some(dirs) ==> after.search_dirs == Some(dirs)
            &&& args.display_full_path matches Some(value) ==> after.display_full_path == Some(
                value,
            )
            &&& args.search_submodules matches Some(value) ==> after.search_submodules == Some(
                value,
            )
            &&& args.recursive_submodules matches Some(value) ==> after.recursive_submodules
                == Some(value)
        }),
{
}

/// The default session is stored with an underscore for each dot and every other character as it is.
pub proof fn law_default_session_is_stored(
    config: ConfigView,
    args: ConfigArgsView,
    dirs: Option<Seq<SearchDirectory>>,
    name: Seq<char>,
)
    requires
        args.default_session == Some(name),
    ensures
        changed(config, args, dirs).default_session matches Some(stored) && stored.len()
            == name.len() && forall|i: int|
            0 <= i < name.len() ==> #[trigger] stored[i] == if name[i] == '.' {
                '_'
            } else {
                name[i]
            },
{
    law_char_replaced_in_place(name, '.', '_');
}

/// Directories are added behind those that are excluded already, in order.
pub proof fn law_directories_are_added(
    config: ConfigView,
    args: ConfigArgsView,
    dirs: Option<Seq<SearchDirectory>>,
    more: Seq<Seq<char>>,
)
    requires
        args.excluded_dirs == Some(more),
        args.removed_dirs is None,
    ensures
        changed(config, args, dirs).excluded_dirs == match config.excluded_dirs {
            Some(before) => Some(before + more),
            None => Some(more),
        },
{
}

/// Each directory that is excluded is kept, in its place, if and only if it is not named among those
/// to be removed.
pub proof fn law_directories_are_removed_one_by_one(
    before: Seq<Seq<char>>,
    dir: Seq<char>,
    values: Seq<Seq<char>>,
)
    ensures
        reduced(Some(Seq::<Seq<char>>::empty()), Some(values)) == Some(Seq::<Seq<char>>::empty()),
        names_in(values).contains(dir) ==> reduced(Some(before.push(dir)), Some(values)) == reduced(
            Some(before),
            Some(values),
        ),
        !names_in(values).contains(dir) ==> reduced(Some(before.push(dir)), Some(values)) == Some(
            reduced(Some(before), Some(values))->0.push(dir),
        ),
{
    reveal(Seq::filter);
    assert(before.push(dir).drop_last() =~= before);
    let pred = not_among(names_in(values));
    assert(Seq::<Seq<char>>::empty().filter(pred) =~= Seq::<Seq<char>>::empty());
}

/// What is removed is taken from what was excluded before together with what is added.
pub proof fn law_removed_after_added(
    config: ConfigView,
    args: ConfigArgsView,
    dirs: Option<Seq<SearchDirectory>>,
    all: Seq<Seq<char>>,
    values: Seq<Seq<char>>,
)
    requires
        args.removed_dirs == Some(values),
        all == match (config.excluded_dirs, args.excluded_dirs) {
            (Some(before), Some(more)) => before + more,
            (Some(before), None) => before,
            (None, Some(more)) => more,
            (None, None) => Seq::<Seq<char>>::empty(),
        },
        config.excluded_dirs is Some || args.excluded_dirs is Some,
    ensures
        changed(config, args, dirs).excluded_dirs == reduced(Some(all), Some(values)),
        can_remove(config, args),
{
}

/// Every value that is given to be removed counts. A value without spaces is one name; with spaces, it
/// is the names between them.
pub proof fn law_names_to_be_removed(
    values: Seq<Seq<char>>,
    value: Seq<char>,
    first: Seq<char>,
    rest: Seq<char>,
)
    ensures
        names_in(Seq::<Seq<char>>::empty()).len() == 0,
        !value.contains(' ') ==> names_in(values.push(value)) == names_in(values).push(value),
        !first.contains(' ') ==> names_in(values.push(first + seq![' '] + rest)) == names_in(
            values.push(first).push(rest),
        ),
{
    assert(values.push(value).drop_last() =~= values);
    if !value.contains(' ') {
        law_pieces_whole(value, ' ');
        assert(names_in(values.push(value)) =~= names_in(values).push(value));
    }
    if !first.contains(' ') {
        let both = first + seq![' '] + rest;
        law_pieces_whole(first, ' ');
        law_pieces_at_separator(first, ' ', rest);
        assert(values.push(both).drop_last() =~= values);
        assert(values.push(first).push(rest).drop_last() =~= values.push(first));
        assert(values.push(first).drop_last() =~= values);
        assert(names_in(values.push(first)) == names_in(values) + seq![first]);
        assert(names_in(values.push(first).push(rest)) == names_in(values.push(first)) + pieces(
            rest,
            ' ',
        ));
        assert(names_in(values.push(both)) == names_in(values) + (seq![first] + pieces(rest, ' ')));
        assert(names_in(values) + (seq![first] + pieces(rest, ' ')) =~= names_in(values) + seq![
            first,
        ] + pieces(rest, ' '));
    }
}

/// One slash at the end of a search path is left out, and nothing else.
pub proof fn law_slash_is_left_out(path: Seq<char>)
    ensures
        without_slash(path + seq!['/']) == path,
        path.len() == 0 || path.last() != '/' ==> without_slash(path) == path,
{
    assert((path + seq!['/']).drop_last() =~= path);
}

/// Each search path is searched to the depth that is given in its place, and to ten where none is.
pub proof fn law_depths(
    expansions: Seq<Result<Seq<char>, MissingView>>,
    depths: Seq<usize>,
    canonical: Seq<PathBuf>,
    i: int,
)
    requires
        0 <= i < canonical.len(),
        canonical.len() <= expansions.len(),
    ensures
        resolved(search_paths(expansions, depths), canonical).len() == canonical.len(),
        resolved(search_paths(expansions, depths), canonical)[i] == (SearchDirectory {
            path: canonical[i],
            depth: if i < depths.len() {
                depths[i]
            } else {
                10
            },
        }),
{
}

/// `path` stands for itself: it holds no dollar and does not start with a tilde.
pub open spec fn stands_for_itself(path: Seq<char>) -> bool {
    !path.contains('$') && (path.len() > 0 ==> path[0] != '~')
}

/// A whole run of `config` with search paths that stand for themselves, each with or without a slash at
/// its end: they are resolved in order, and what is stored has them in order, each with its depth, and
/// everything else as it is asked for.
pub proof fn law_search_paths_are_stored(
    config: ConfigView,
    environment: EnvironmentView,
    step: StepView,
    args: ConfigArgsView,
    given: Seq<Seq<char>>,
    paths: Seq<Seq<char>>,
    canonical: Seq<PathBuf>,
    n: int,
    dirs: Seq<SearchDirectory>,
)
    requires
        args.search_paths == Some(given),
        begins(RequestView::Config(args), config, environment, step),
        paths.len() == given.len(),
        forall|i: int|
            0 <= i < paths.len() ==> stands_for_itself(#[trigger] paths[i]) && (given[i]
                == paths[i] + seq!['/'] || given[i] == paths[i] && (paths[i].len() > 0
                ==> paths[i].last() != '/')),
        canonical.len() == paths.len(),
        0 <= n < paths.len(),
        dirs.len() == paths.len(),
        forall|i: int|
            0 <= i < paths.len() ==> #[trigger] dirs[i] == (SearchDirectory {
                path: canonical[i],
                depth: if i < args.max_depths.len() {
                    args.max_depths[i]
                } else {
                    10
                },
            }),
    ensures
        run(step, canonical_replies(canonical.take(n))).effects.len() == 0,
        run(step, canonical_replies(canonical.take(n))).next matches NextView::Ask(query, _)
            && query == QueryView::Canonicalize(paths[n]),
        run(step, canonical_replies(canonical)).effects.len() == 0,
        run(step, canonical_replies(canonical)).next matches NextView::Ask(query, _) && query
            == QueryView::SaveConfig(changed(config, args, Some(dirs))),
        run(step, canonical_replies(canonical).push(ReplyView::Saved(true))) == (RunView {
            effects: seq![EffectView::Print("Configuration has been stored"@)],
            next: NextView::Finish(Ok(SubCommandGivenView::Yes)),
        }),
{
    let expansions = lemma_config_begins(config, environment, step, args, given);
    assert forall|i: int| 0 <= i < paths.len() implies #[trigger] expansions[i] == Ok::<
        Seq<char>,
        MissingView,
    >(paths[i]) by {
        assert(stands_for_itself(paths[i]));
        law_slash_is_left_out(paths[i]);
        assert(without_slash(given[i]) == paths[i]);
        assert(expands(without_slash(given[i]), environment, expansions[i]));
        law_plain_paths(paths[i], environment);
        law_clear_paths(paths[i], environment, expansions[i]);
    }
    law_first_missing(expansions);
    law_search_paths_are_resolved_in_order(config, args, expansions, canonical.take(n));
    law_config_with_search_paths(config, args, expansions, canonical);
    let known = resolved(search_paths(expansions, args.max_depths), canonical);
    assert forall|i: int| 0 <= i < dirs.len() implies #[trigger] dirs[i] == known[i] by {
        law_depths(expansions, args.max_depths, canonical, i);
    }
    assert(dirs =~= known);
}

/// Where `config` begins.
proof fn lemma_config_begins(
    config: ConfigView,
    environment: EnvironmentView,
    step: StepView,
    args: ConfigArgsView,
    given: Seq<Seq<char>>,
) -> (expansions: Seq<Result<Seq<char>, MissingView>>)
    requires
        args.search_paths == Some(given),
        begins(RequestView::Config(args), config, environment, step),
    ensures
        paths_expand(Some(given), environment, Some(expansions)),
        step == config_step(config, args, Some(expansions)),
{
    let found = choose|expansions: Option<Seq<Result<Seq<char>, MissingView>>>|
        paths_expand(args.search_paths, environment, expansions) && step
            == #[trigger] config_step(config, args, expansions);
    found->0
}

} // verus!
