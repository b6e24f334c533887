//! `config`: change the configuration.

use crate::config::{opt_views, Config, ConfigView, SearchDirectory};
use crate::expansion::{
    copy_missing, expands, expansion_view, Environment, EnvironmentView, Missing, MissingView,
};
use crate::outside::expand;
use crate::protocol::{
    ask, asking, done, effect_views, fail, fail_on, failed, finish, not_found, only,
    search_path_views, Effect, EffectView, Query, QueryView, SearchPath, SearchPathView, Step,
    StepView, TmsError, Waiting, WaitingView,
};
use crate::request::{ConfigArgs, ConfigArgsView};
use crate::text::{char_replaced, chars_of, holds, pieces, replace_char, split_on, string_of, views};
use std::path::PathBuf;
use vstd::prelude::*;

verus! {

/// How deep a directory is searched where nothing else is said.
pub const DEFAULT_DEPTH: usize = 10;

/// `path` without one slash at its end.
pub open spec fn without_slash(path: Seq<char>) -> Seq<char> {
    if path.len() > 0 && path.last() == '/' {
        path.drop_last()
    } else {
        path
    }
}

/// The depth of the search path `i`.
pub open spec fn depth_of(depths: Seq<usize>, i: int) -> usize {
    if i < depths.len() {
        depths[i]
    } else {
        DEFAULT_DEPTH
    }
}

/// The views of a list of expansions.
pub open spec fn expansion_views(expansions: Seq<Result<String, Missing>>) -> Seq<
    Result<Seq<char>, MissingView>,
> {
    expansions.map_values(|e: Result<String, Missing>| expansion_view(e))
}

/// The view of an optional list of expansions.
pub open spec fn opt_expansion_views(expansions: Option<Vec<Result<String, Missing>>>) -> Option<
    Seq<Result<Seq<char>, MissingView>>,
> {
    match expansions {
        Some(expansions) => Some(expansion_views(expansions@)),
        None => None,
    }
}

/// `expansions` are what the search paths, each without a slash at its end, become, all in one
/// environment.
pub open spec fn paths_expand(
    paths: Option<Seq<Seq<char>>>,
    environment: EnvironmentView,
    expansions: Option<Seq<Result<Seq<char>, MissingView>>>,
) -> bool {
    match paths {
        None => expansions is None,
        Some(paths) => {
            &&& expansions is Some
            &&& expansions->0.len() == paths.len()
            &&& forall|i: int|
                0 <= i < paths.len() ==> expands(
                    without_slash(paths[i]),
                    environment,
                    #[trigger] expansions->0[i],
                )
        },
    }
}

/// The first variable that is missing, if any is.
pub open spec fn first_missing(expansions: Seq<Result<Seq<char>, MissingView>>) -> Option<
    MissingView,
>
    decreases expansions.len(),
{
    if expansions.len() == 0 {
        None
    } else {
        match first_missing(expansions.drop_last()) {
            Some(missing) => Some(missing),
            None => match expansions.last() {
                Ok(_) => None,
                Err(missing) => Some(missing),
            },
        }
    }
}

/// The expanded search paths, each with its depth.
pub open spec fn search_paths(
    expansions: Seq<Result<Seq<char>, MissingView>>,
    depths: Seq<usize>,
) -> Seq<SearchPathView> {
    Seq::new(
        expansions.len(),
        |i: int| SearchPathView { path: expansions[i]->Ok_0, depth: depth_of(depths, i) },
    )
}

/// The value that is given, or else the one there was.
pub open spec fn or_else<T>(given: Option<T>, current: Option<T>) -> Option<T> {
    match given {
        Some(value) => Some(value),
        None => current,
    }
}

/// The excluded directories after `more` have been added.
pub open spec fn extended(
    current: Option<Seq<Seq<char>>>,
    more: Option<Seq<Seq<char>>>,
) -> Option<Seq<Seq<char>>> {
    match more {
        None => current,
        Some(more) => match current {
            Some(dirs) => Some(dirs + more),
            None => Some(more),
        },
    }
}

/// The names in `values`: a value may hold several, with spaces between them.
pub open spec fn names_in(values: Seq<Seq<char>>) -> Seq<Seq<char>>
    decreases values.len(),
{
    if values.len() == 0 {
        Seq::<Seq<char>>::empty()
    } else {
        names_in(values.drop_last()) + pieces(values.last(), ' ')
    }
}

/// Holds of what is not among `names`.
pub open spec fn not_among(names: Seq<Seq<char>>) -> spec_fn(Seq<char>) -> bool {
    |dir: Seq<char>| !names.contains(dir)
}

/// The excluded directories after those named in `values` have been removed.
pub open spec fn reduced(
    current: Option<Seq<Seq<char>>>,
    values: Option<Seq<Seq<char>>>,
) -> Option<Seq<Seq<char>>> {
    match values {
        None => current,
        Some(values) => match current {
            Some(dirs) => Some(dirs.filter(not_among(names_in(values)))),
            None => None,
        },
    }
}

/// Where directories are to be removed, there are some that are excluded.
pub open spec fn can_remove(config: ConfigView, args: ConfigArgsView) -> bool {
    args.removed_dirs is Some ==> extended(config.excluded_dirs, args.excluded_dirs) is Some
}

/// The configuration with the changes that `args` ask for, `dirs` being the search directories.
pub open spec fn changed(
    config: ConfigView,
    args: ConfigArgsView,
    dirs: Option<Seq<SearchDirectory>>,
) -> ConfigView {
    ConfigView {
        sessions: config.sessions,
        search_dirs: or_else(dirs, config.search_dirs),
        default_session: match args.default_session {
            Some(name) => Some(char_replaced(name, '.', '_')),
            None => config.default_session,
        },
        display_full_path: or_else(args.display_full_path, config.display_full_path),
        search_submodules: or_else(args.search_submodules, config.search_submodules),
        recursive_submodules: or_else(args.recursive_submodules, config.recursive_submodules),
        excluded_dirs: reduced(
            extended(config.excluded_dirs, args.excluded_dirs),
            args.removed_dirs,
        ),
    }
}

/// Asks for the changed configuration to be stored.
pub open spec fn save_step(
    config: ConfigView,
    args: ConfigArgsView,
    dirs: Option<Seq<SearchDirectory>>,
) -> StepView {
    asking(QueryView::SaveConfig(changed(config, args, dirs)), WaitingView::ConfigSaved)
}

/// Asks for the canonical form of the next search path, or, where all are known, for the changed
/// configuration to be stored.
pub open spec fn resolve_step(
    config: ConfigView,
    args: ConfigArgsView,
    paths: Seq<SearchPathView>,
    found: Seq<SearchDirectory>,
) -> StepView {
    if found.len() < paths.len() {
        asking(
            QueryView::Canonicalize(paths[found.len() as int].path),
            WaitingView::ConfigPath { config, args, paths, found },
        )
    } else {
        save_step(config, args, Some(found))
    }
}

/// The first step, with the search paths expanded.
pub open spec fn config_step(
    config: ConfigView,
    args: ConfigArgsView,
    expansions: Option<Seq<Result<Seq<char>, MissingView>>>,
) -> StepView {
    match expansions {
        None => save_step(config, args, None),
        Some(expansions) => match first_missing(expansions) {
            None => resolve_step(
                config,
                args,
                search_paths(expansions, args.max_depths),
                Seq::<SearchDirectory>::empty(),
            ),
            Some(missing) => failed(Seq::<EffectView>::empty(), not_found(missing)),
        },
    }
}

/// With the canonical form of a search path known: go on to the next.
pub open spec fn config_after_path(
    config: ConfigView,
    args: ConfigArgsView,
    paths: Seq<SearchPathView>,
    found: Seq<SearchDirectory>,
    canonical: Option<PathBuf>,
) -> StepView {
    match canonical {
        None => failed(Seq::<EffectView>::empty(), only(TmsError::IoError)),
        Some(path) => resolve_step(
            config,
            args,
            paths,
            found.push(SearchDirectory { path, depth: paths[found.len() as int].depth }),
        ),
    }
}

/// With the configuration stored, says so.
pub open spec fn config_after_saved(saved: bool) -> StepView {
    if saved {
        done(seq![EffectView::Print("Configuration has been stored"@)])
    } else {
        failed(Seq::<EffectView>::empty(), only(TmsError::ConfigError))
    }
}

/// `path` without one slash at its end.
fn strip_slash(path: &str) -> (r: String)
    ensures
        r@ == without_slash(path@),
{
    let chars = chars_of(path);
    let end: usize = if chars.len() > 0 && chars[chars.len() - 1] == '/' {
        chars.len() - 1
    } else {
        chars.len()
    };
    let out = string_of(&chars, 0, end);
    assert(out@ =~= without_slash(path@));
    out
}

/// Expands the search paths.
pub fn expand_search_paths(paths: &Option<Vec<String>>, environment: &Environment) -> (r: Option<
    Vec<Result<String, Missing>>,
>)
    ensures
        paths_expand(opt_views(*paths), environment@, opt_expansion_views(r)),
{
    match paths {
        None => None,
        Some(paths) => {
            let mut out: Vec<Result<String, Missing>> = Vec::new();
            let mut i: usize = 0;
            while i < paths.len()
                invariant
                    i <= paths.len(),
                    out.len() == i,
                    forall|j: int|
                        0 <= j < i ==> expands(
                            without_slash(paths@[j]@),
                            environment@,
                            expansion_view(#[trigger] out@[j]),
                        ),
                decreases paths.len() - i,
            {
                let path = strip_slash(paths[i].as_str());
                out.push(expand(path.as_str(), environment));
                i += 1;
            }
            Some(out)
        },
    }
}

/// The expanded search paths with their depths, or the first variable that is missing.
fn with_depths(expansions: Vec<Result<String, Missing>>, depths: &Vec<usize>) -> (r: Result<
    Vec<SearchPath>,
    Missing,
>)
    ensures
        match r {
            Ok(paths) => first_missing(expansion_views(expansions@)) is None && search_path_views(
                paths@,
            ) == search_paths(expansion_views(expansions@), depths@),
            Err(missing) => first_missing(expansion_views(expansions@)) == Some(missing@),
        },
{
    let ghost all = expansion_views(expansions@);
    let mut out: Vec<SearchPath> = Vec::new();
    let mut i: usize = 0;
    while i < expansions.len()
        invariant
            i <= expansions.len(),
            all == expansion_views(expansions@),
            first_missing(all.take(i as int)) is None,
            search_path_views(out@) == search_paths(all, depths@).take(i as int),
        decreases expansions.len() - i,
    {
        assert(all[i as int] == expansion_view(expansions@[i as int]));
        assert(all.take(i + 1).drop_last() =~= all.take(i as int));
        assert(all.take(i + 1).last() == all[i as int]);
        match &expansions[i] {
            Err(missing) => {
                proof {
                    lemma_first_missing_stays(all, i + 1);
                }
                return Err(copy_missing(missing));
            },
            Ok(path) => {
                let depth: usize = if i < depths.len() {
                    depths[i]
                } else {
                    DEFAULT_DEPTH
                };
                let ghost before = search_path_views(out@);
                let entry = SearchPath { path: path.clone(), depth };
                assert(entry@ == search_paths(all, depths@)[i as int]);
                out.push(entry);
                assert(search_path_views(out@) =~= before.push(entry@));
            },
        }
        i += 1;
    }
    assert(all.take(i as int) =~= all);
    assert(search_paths(all, depths@).take(i as int) =~= search_paths(all, depths@));
    Ok(out)
}

/// What comes after the first that is missing does not matter.
proof fn lemma_first_missing_stays(expansions: Seq<Result<Seq<char>, MissingView>>, n: int)
    requires
        0 <= n <= expansions.len(),
        first_missing(expansions.take(n)) is Some,
    ensures
        first_missing(expansions) == first_missing(expansions.take(n)),
    decreases expansions.len(),
{
    if n == expansions.len() {
        assert(expansions.take(n) =~= expansions);
    } else {
        assert(expansions.drop_last().take(n) =~= expansions.take(n));
        lemma_first_missing_stays(expansions.drop_last(), n);
    }
}

/// The names in `values`.
fn read_names(values: &Vec<String>) -> (r: Vec<String>)
    ensures
        views(r@) == names_in(views(values@)),
{
    let mut out: Vec<String> = Vec::new();
    let mut i: usize = 0;
    assert(views(out@) =~= names_in(views(values@).take(0)));
    while i < values.len()
        invariant
            i <= values.len(),
            views(out@) == names_in(views(values@).take(i as int)),
        decreases values.len() - i,
    {
        assert(views(values@).take(i + 1).drop_last() =~= views(values@).take(i as int));
        assert(views(values@).take(i + 1).last() == values@[i as int]@);
        let mut names = split_on(values[i].as_str(), ' ');
        let ghost before = views(out@);
        let ghost more = views(names@);
        out.append(&mut names);
        assert(views(out@) =~= before + more);
        i += 1;
    }
    assert(views(values@).take(i as int) =~= views(values@));
    out
}

/// `dirs` without those among `names`.
fn without_names(dirs: &Vec<String>, names: &Vec<String>) -> (r: Vec<String>)
    ensures
        views(r@) == views(dirs@).filter(not_among(views(names@))),
{
    let ghost all = views(dirs@);
    let ghost keep = not_among(views(names@));
    let mut out: Vec<String> = Vec::new();
    let mut i: usize = 0;
    assert(views(out@) =~= all.take(0).filter(keep)) by {
        reveal(Seq::filter);
    }
    while i < dirs.len()
        invariant
            i <= dirs.len(),
            all == views(dirs@),
            keep == not_among(views(names@)),
            views(out@) == all.take(i as int).filter(keep),
        decreases dirs.len() - i,
    {
        proof {
            reveal(Seq::filter);
            assert(all.take(i + 1).drop_last() =~= all.take(i as int));
            assert(all.take(i + 1).last() == dirs@[i as int]@);
        }
        let ghost before = views(out@);
        if !holds(names, dirs[i].as_str()) {
            out.push(dirs[i].clone());
            assert(views(out@) =~= before.push(dirs@[i as int]@));
        }
        i += 1;
    }
    assert(all.take(i as int) =~= all);
    out
}

/// The excluded directories after some have been added and others removed.
pub fn change_excluded(
    current: Option<Vec<String>>,
    more: Option<Vec<String>>,
    values: Option<Vec<String>>,
) -> (r: Option<Vec<String>>)
    requires
        values is Some ==> extended(opt_views(current), opt_views(more)) is Some,
    ensures
        opt_views(r) == reduced(
            extended(opt_views(current), opt_views(more)),
            opt_views(values),
        ),
{
    let larger = match more {
        None => current,
        Some(mut more) => match current {
            None => Some(more),
            Some(mut dirs) => {
                let ghost first = views(dirs@);
                let ghost second = views(more@);
                dirs.append(&mut more);
                assert(views(dirs@) =~= first + second);
                Some(dirs)
            },
        },
    };
    match values {
        None => larger,
        Some(values) => match larger {
            None => None,
            Some(dirs) => {
                let names = read_names(&values);
                Some(without_names(&dirs, &names))
            },
        },
    }
}

/// The configuration with the changes that `args` ask for.
pub fn change(config: Config, args: ConfigArgs, dirs: Option<Vec<SearchDirectory>>) -> (r: Config)
    requires
        can_remove(config@, args@),
    ensures
        r@ == changed(
            config@,
            args@,
            match dirs {
                Some(dirs) => Some(dirs@),
                None => None,
            },
        ),
{
    let search_dirs = match dirs {
        Some(dirs) => Some(dirs),
        None => config.search_dirs,
    };
    let default_session = match args.default_session {
        Some(name) => Some(replace_char(name.as_str(), '.', '_')),
        None => config.default_session,
    };
    let display_full_path = match args.display_full_path {
        Some(display) => Some(display),
        None => config.display_full_path,
    };
    let search_submodules = match args.search_submodules {
        Some(submodules) => Some(submodules),
        None => config.search_submodules,
    };
    let recursive_submodules = match args.recursive_submodules {
        Some(submodules) => Some(submodules),
        None => config.recursive_submodules,
    };
    Config {
        sessions: config.sessions,
        search_dirs,
        default_session,
        display_full_path,
        search_submodules,
        recursive_submodules,
        excluded_dirs: change_excluded(config.excluded_dirs, args.excluded_dirs, args.removed_dirs),
    }
}

/// Asks for the next canonical path, or for the changed configuration to be stored.
fn resolve(
    config: Config,
    args: ConfigArgs,
    paths: Vec<SearchPath>,
    found: Vec<SearchDirectory>,
) -> (r: Step)
    requires
        found.len() >= paths.len() ==> can_remove(config@, args@),
    ensures
        r@ == resolve_step(config@, args@, search_path_views(paths@), found@),
{
    assert(search_path_views(paths@).len() == paths@.len());
    if found.len() < paths.len() {
        ask(
            Query::Canonicalize(paths[found.len()].path.clone()),
            Waiting::ConfigPath { config, args, paths, found },
        )
    } else {
        ask(Query::SaveConfig(change(config, args, Some(found))), Waiting::ConfigSaved)
    }
}

/// The first step of `config`, with the search paths expanded.
pub fn begin(
    config: Config,
    args: ConfigArgs,
    expansions: Option<Vec<Result<String, Missing>>>,
) -> (r: Step)
    requires
        (expansions is None || expansions->0.len() == 0) ==> can_remove(config@, args@),
    ensures
        r@ == config_step(config@, args@, opt_expansion_views(expansions)),
{
    match expansions {
        None => ask(Query::SaveConfig(change(config, args, None)), Waiting::ConfigSaved),
        Some(expansions) => {
            let count: usize = expansions.len();
            match with_depths(expansions, &args.max_depths) {
                Err(missing) => {
                    let effects: Vec<Effect> = Vec::new();
                    assert(effect_views(effects@) =~= Seq::<EffectView>::empty());
                    fail_on(effects, missing)
                },
                Ok(paths) => {
                    assert(search_path_views(paths@).len() == count);
                    resolve(config, args, paths, Vec::new())
                },
            }
        },
    }
}

/// Goes on when the canonical form of a search path is known.
pub fn after_path(
    config: Config,
    args: ConfigArgs,
    paths: Vec<SearchPath>,
    found: Vec<SearchDirectory>,
    canonical: Option<PathBuf>,
) -> (r: Step)
    requires
        found.len() < paths.len(),
        canonical is Some && found.len() + 1 == paths.len() ==> can_remove(config@, args@),
    ensures
        r@ == config_after_path(config@, args@, search_path_views(paths@), found@, canonical),
{
    match canonical {
        None => fail(TmsError::IoError),
        Some(path) => {
            let mut found = found;
            assert(search_path_views(paths@)[found.len() as int] == paths@[found.len() as int]@);
            found.push(SearchDirectory::new(path, paths[found.len()].depth));
            resolve(config, args, paths, found)
        },
    }
}

/// Goes on when it is known whether the configuration has been stored.
pub fn after_saved(saved: bool) -> (r: Step)
    ensures
        r@ == config_after_saved(saved),
{
    if saved {
        let mut effects: Vec<Effect> = Vec::new();
        effects.push(Effect::Print("Configuration has been stored".to_owned()));
        assert(effect_views(effects@) =~= seq![
            EffectView::Print("Configuration has been stored"@),
        ]);
        finish(effects)
    } else {
        fail(TmsError::ConfigError)
    }
}

} // verus!
