use std::path::PathBuf;
use tms::config::{Config, SearchDirectory, Session, Window};
use tms::configure::{change, change_excluded, expand_search_paths, DEFAULT_DEPTH};
use tms::expansion::{look_up, Absence, Environment, Missing, Variable};
use tms::handle::{begin, handle_sub_commands, is_acceptable, resume};
use tms::protocol::{Effect, Next, Query, Reply, Step, SubCommandGiven, TmsError, Waiting};
use tms::request::{ConfigArgs, Given, Matches, Request, Values};
use tms::start::{
    expand_sessions, start_sessions, Expanded, ExpandedSession, ExpandedWindow,
};

fn text(s: &str) -> Option<String> {
    Some(s.to_string())
}

fn strings(list: &[&str]) -> Vec<String> {
    list.iter().map(|s| s.to_string()).collect()
}

fn empty_config() -> Config {
    Config {
        sessions: None,
        search_dirs: None,
        default_session: None,
        display_full_path: None,
        search_submodules: None,
        recursive_submodules: None,
        excluded_dirs: None,
    }
}

fn no_args() -> ConfigArgs {
    ConfigArgs {
        max_depths: vec![],
        search_paths: None,
        default_session: None,
        display_full_path: None,
        search_submodules: None,
        recursive_submodules: None,
        excluded_dirs: None,
        removed_dirs: None,
    }
}

fn commands(step: &Step) -> Vec<String> {
    step.effects
        .iter()
        .map(|e| match e {
            Effect::Tmux(command) => command.clone(),
            Effect::Print(line) => format!("print {}", line),
            _ => panic!("unexpected effect"),
        })
        .collect()
}

fn error(step: &Step) -> Option<TmsError> {
    match &step.next {
        Next::Finish(Err(failure)) => Some(failure.error),
        _ => None,
    }
}

fn missing(step: &Step) -> Option<(String, Absence)> {
    match &step.next {
        Next::Finish(Err(failure)) => {
            failure.missing.as_ref().map(|m| (m.name.clone(), m.cause))
        }
        _ => None,
    }
}

fn variable(name: &str, value: Option<&str>) -> Variable {
    Variable { name: name.to_string(), value: value.map(String::from) }
}

fn somewhere() -> Environment {
    Environment {
        home: text("/home/me"),
        variables: vec![
            variable("USER", Some("me")),
            variable("A", Some("x")),
            variable("EMPTY", Some("")),
            variable("TILDE", Some("~/t")),
            variable("SLASH", Some("/s")),
            variable("RAW", None),
            variable("USER", Some("other")),
        ],
    }
}

/// The expansions of search paths, a failed one as the name of what is missing.
fn expanded(paths: &[&str], environment: &Environment) -> Vec<Result<String, String>> {
    expand_search_paths(&Some(strings(paths)), environment)
        .unwrap()
        .into_iter()
        .map(|r| r.map_err(|m| m.name))
        .collect()
}

fn good(path: &str) -> Result<String, String> {
    Ok(path.to_string())
}

fn lacks(name: &str) -> Result<String, String> {
    Err(name.to_string())
}

fn is_done(step: &Step) -> bool {
    matches!(&step.next, Next::Finish(Ok(SubCommandGiven::Yes)))
}

fn saved(step: Step) -> (Config, Waiting) {
    match step.next {
        Next::Ask(Query::SaveConfig(config), waiting) => (config, waiting),
        _ => panic!("not saving"),
    }
}

fn asks_canonical(step: Step) -> (String, Waiting) {
    match step.next {
        Next::Ask(Query::Canonicalize(path), waiting) => (path, waiting),
        _ => panic!("not resolving"),
    }
}

fn session(name: &str, path: Expanded) -> ExpandedSession {
    ExpandedSession { name: text(name), path, windows: None }
}

#[test]
fn start_without_sessions_runs_tmux() {
    let step = begin(Request::Start, empty_config(), &somewhere());
    assert_eq!(commands(&step), vec!["tmux"]);
    assert!(is_done(&step));
}

#[test]
fn start_with_an_empty_list_attaches() {
    let mut config = empty_config();
    config.sessions = Some(vec![]);
    let step = begin(Request::Start, config, &somewhere());
    assert_eq!(commands(&step), vec!["tmux attach"]);
    assert!(is_done(&step));
}

#[test]
fn start_opens_sessions_and_windows() {
    let mut config = empty_config();
    config.sessions = Some(vec![
        Session {
            name: text("work"),
            path: text("/srv/work"),
            windows: Some(vec![
                Window { name: text("edit"), path: text("/srv/work/src"), command: text("vim") },
                Window { name: None, path: None, command: None },
            ]),
        },
        Session { name: None, path: None, windows: None },
    ]);
    let step = begin(Request::Start, config, &somewhere());
    assert_eq!(
        commands(&step),
        vec![
            "tmux new-session -d -s work -c /srv/work",
            "tmux new-window -n edit -c /srv/work/src",
            "tmux send-keys vim Enter",
            "tmux new-window",
            "tmux kill-window -t :1",
            "tmux new-session -d",
            "tmux attach",
        ]
    );
    assert!(is_done(&step));
}

#[test]
fn a_session_with_no_windows_listed_loses_its_first() {
    let step = start_sessions(Some(vec![ExpandedSession {
        name: None,
        path: Expanded::NoPath,
        windows: Some(vec![]),
    }]));
    assert_eq!(
        commands(&step),
        vec!["tmux new-session -d", "tmux kill-window -t :1", "tmux attach"]
    );
}

#[test]
fn start_expands_paths() {
    let mut config = empty_config();
    config.sessions =
        Some(vec![Session { name: None, path: text("/price/$$/x"), windows: None }]);
    let step = begin(Request::Start, config, &somewhere());
    assert_eq!(commands(&step), vec!["tmux new-session -d -c /price/$/x", "tmux attach"]);
}

#[test]
fn dollars_that_refer_to_nothing_are_literal() {
    assert_eq!(
        expanded(&["/a/$$A", "/a/$", "/a/$/b", "/a/${b", "/$$$$/$-", "~$$"], &somewhere()),
        vec![
            good("/a/$A"),
            good("/a/$"),
            good("/a/$/b"),
            good("/a/${b"),
            good("/$$/$-"),
            good("~$"),
        ]
    );
}

#[test]
fn variables_are_filled_in() {
    assert_eq!(
        expanded(
            &["/home/$USER/work", "$A.bak", "$A$A-${A}y", "$Ay", "/a$EMPTY/b", "é${A}é"],
            &somewhere()
        ),
        vec![
            good("/home/me/work"),
            good("x.bak"),
            good("xx-xy"),
            lacks("Ay"),
            good("/a/b"),
            good("éxé"),
        ]
    );
}

#[test]
fn variables_with_a_default_do_not_fail() {
    assert_eq!(
        expanded(
            &[
                "/a/${NONE:-b}/c",
                "/a/${NONE:-}/c",
                "/a/${A:-b}/c",
                "/a/${:-b}/c",
                "/a/${NONE}/c",
                "/a/${RAW:-b:-c}",
                "/${NONE:-$A}/$A",
                "${}",
            ],
            &somewhere()
        ),
        vec![
            good("/a/b/c"),
            good("/a//c"),
            good("/a/x/c"),
            lacks(":-b"),
            lacks("NONE"),
            good("/a/b:-c"),
            good("/$A/x"),
            lacks(""),
        ]
    );
}

#[test]
fn the_home_directory_stands_for_the_tilde() {
    assert_eq!(
        expanded(&["~", "~/work", "~other/x", "/x/~", "~$SLASH", "$TILDE", "~$EMPTY"], &somewhere()),
        vec![
            good("/home/me"),
            good("/home/me/work"),
            good("~other/x"),
            good("/x/~"),
            good("/home/me/s"),
            good("~/t"),
            good("/home/me"),
        ]
    );
    let homeless = Environment { home: None, variables: vec![] };
    assert_eq!(expanded(&["~/work", "~"], &homeless), vec![good("~/work"), good("~")]);
}

#[test]
fn a_failed_expansion_names_the_first_variable_that_is_missing() {
    let mut args = no_args();
    args.search_paths = Some(strings(&["/one", "/$A/$RAW/$NONE", "/$OTHER"]));
    let end = begin(Request::Config(args), empty_config(), &somewhere());
    assert!(end.effects.is_empty());
    assert_eq!(error(&end), Some(TmsError::IoError));
    assert_eq!(missing(&end), Some(("RAW".to_string(), Absence::NotText)));
    let mut config = empty_config();
    config.sessions = Some(vec![Session { name: None, path: text("$NONE"), windows: None }]);
    let end = begin(Request::Start, config, &somewhere());
    assert_eq!(missing(&end), Some(("NONE".to_string(), Absence::Unset)));
}

#[test]
fn variables_are_looked_up_in_order() {
    assert_eq!(look_up(&somewhere(), "USER"), Ok(text("me")));
    assert_eq!(look_up(&somewhere(), "RAW"), Err(Absence::NotText));
    assert_eq!(look_up(&somewhere(), "NONE"), Err(Absence::Unset));
    assert_eq!(look_up(&somewhere(), ""), Err(Absence::Unset));
}

#[test]
fn start_fails_on_an_unknown_variable() {
    let mut config = empty_config();
    config.sessions = Some(vec![
        Session { name: text("first"), path: None, windows: None },
        Session {
            name: text("second"),
            path: text("/srv"),
            windows: Some(vec![
                Window { name: text("w"), path: None, command: text("ls") },
                Window {
                    name: None,
                    path: text("/x/$TMS_TESTS_NO_SUCH_VARIABLE"),
                    command: text("never"),
                },
            ]),
        },
        Session { name: text("third"), path: None, windows: None },
    ]);
    let step = begin(Request::Start, config, &somewhere());
    assert_eq!(
        commands(&step),
        vec![
            "tmux new-session -d -s first",
            "tmux new-session -d -s second -c /srv",
            "tmux new-window -n w",
            "tmux send-keys ls Enter",
        ]
    );
    assert_eq!(error(&step), Some(TmsError::IoError));
}

#[test]
fn start_stops_at_the_first_path_that_does_not_expand() {
    let step = start_sessions(Some(vec![
        session("a", Expanded::Path("/a".to_string())),
        session("b", Expanded::Failed(Missing { name: "X".to_string(), cause: Absence::Unset })),
        session("c", Expanded::Path("/c".to_string())),
    ]));
    assert_eq!(commands(&step), vec!["tmux new-session -d -s a -c /a"]);
    assert_eq!(error(&step), Some(TmsError::IoError));
    let step = start_sessions(Some(vec![ExpandedSession {
        name: None,
        path: Expanded::NoPath,
        windows: Some(vec![ExpandedWindow {
            name: None,
            path: Expanded::Failed(Missing { name: "Y".to_string(), cause: Absence::NotText }),
            command: text("never"),
        }]),
    }]));
    assert_eq!(commands(&step), vec!["tmux new-session -d"]);
    assert_eq!(error(&step), Some(TmsError::IoError));
}

#[test]
fn plain_paths_are_not_changed_by_expansion() {
    let sessions = Some(vec![Session {
        name: text("n"),
        path: text("/plain/~x/ü"),
        windows: Some(vec![Window { name: None, path: text("~user/x"), command: None }]),
    }]);
    let expanded = expand_sessions(&sessions, &somewhere()).unwrap();
    assert_eq!(expanded.len(), 1);
    assert!(matches!(&expanded[0].path, Expanded::Path(p) if p == "/plain/~x/ü"));
    let windows = expanded[0].windows.as_ref().unwrap();
    assert!(matches!(&windows[0].path, Expanded::Path(p) if p == "~user/x"));
    assert!(expand_sessions(&None, &somewhere()).is_none());
}

#[test]
fn search_paths_lose_one_slash_and_are_expanded() {
    assert_eq!(
        expanded(&["/srv/", "/srv//", "/", "", "/a$$b/", "~/", "/$NONE"], &somewhere()),
        vec![
            good("/srv"),
            good("/srv/"),
            good(""),
            good(""),
            good("/a$b"),
            good("/home/me"),
            lacks("NONE"),
        ]
    );
    assert!(expand_search_paths(&None, &somewhere()).is_none());
}

#[test]
fn config_that_asks_nothing_changes_nothing() {
    let mut config = empty_config();
    config.default_session = text("main");
    config.display_full_path = Some(true);
    config.excluded_dirs = Some(strings(&["target"]));
    config.search_dirs = Some(vec![SearchDirectory::new(PathBuf::from("/srv"), 4)]);
    let after = change(config, no_args(), None);
    assert_eq!(after.default_session, text("main"));
    assert_eq!(after.display_full_path, Some(true));
    assert_eq!(after.search_submodules, None);
    assert_eq!(after.recursive_submodules, None);
    assert_eq!(after.excluded_dirs, Some(strings(&["target"])));
    let dirs = after.search_dirs.unwrap();
    assert_eq!(dirs.len(), 1);
    assert_eq!(dirs[0].path, PathBuf::from("/srv"));
    assert_eq!(dirs[0].depth, 4);
    assert!(after.sessions.is_none());
}

#[test]
fn config_changes_what_is_asked() {
    let mut config = empty_config();
    config.search_submodules = Some(true);
    let mut args = no_args();
    args.default_session = text("my.project.main");
    args.display_full_path = Some(false);
    args.search_submodules = Some(false);
    args.recursive_submodules = Some(true);
    args.excluded_dirs = Some(strings(&["target"]));
    let dirs = vec![SearchDirectory::new(PathBuf::from("/new"), 1)];
    let after = change(config, args, Some(dirs));
    assert_eq!(after.default_session, text("my_project_main"));
    assert_eq!(after.display_full_path, Some(false));
    assert_eq!(after.search_submodules, Some(false));
    assert_eq!(after.recursive_submodules, Some(true));
    assert_eq!(after.excluded_dirs, Some(strings(&["target"])));
    assert_eq!(after.search_dirs.unwrap()[0].path, PathBuf::from("/new"));
}

#[test]
fn excluded_directories_are_added_at_the_end() {
    let after = change_excluded(Some(strings(&["a", "b"])), Some(strings(&["c", "a"])), None);
    assert_eq!(after, Some(strings(&["a", "b", "c", "a"])));
    assert_eq!(change_excluded(None, Some(strings(&["c"])), None), Some(strings(&["c"])));
    assert_eq!(change_excluded(None, None, None), None);
}

#[test]
fn excluded_directories_are_removed_wherever_they_stand() {
    let before = || Some(strings(&["a", "b", "a", "c", "d"]));
    assert_eq!(change_excluded(before(), None, Some(strings(&["a"]))), Some(strings(&["b", "c", "d"])));
    // A value may hold several names, and several values may be given.
    assert_eq!(
        change_excluded(before(), None, Some(strings(&["a c"]))),
        Some(strings(&["b", "d"]))
    );
    assert_eq!(
        change_excluded(before(), None, Some(strings(&["a", "d"]))),
        Some(strings(&["b", "c"]))
    );
    assert_eq!(change_excluded(before(), None, Some(strings(&["x"]))), before());
    // What is added at the same time can be removed too.
    assert_eq!(
        change_excluded(None, Some(strings(&["x", "y"])), Some(strings(&["x"]))),
        Some(strings(&["y"]))
    );
}

#[test]
fn removing_undoes_adding() {
    let before = strings(&["a", "b"]);
    let added = change_excluded(Some(before.clone()), Some(strings(&["c"])), None);
    assert_eq!(change_excluded(added, None, Some(strings(&["c"]))), Some(before));
}

#[test]
fn config_is_stored_and_says_so() {
    let mut args = no_args();
    args.default_session = text("main");
    let step = begin(Request::Config(args), empty_config(), &somewhere());
    assert!(step.effects.is_empty());
    let (config, waiting) = saved(step);
    assert_eq!(config.default_session, text("main"));
    let end = resume(waiting, Reply::Saved(true));
    assert_eq!(commands(&end), vec!["print Configuration has been stored"]);
    assert!(is_done(&end));
}

#[test]
fn config_that_cannot_be_stored_is_an_error() {
    let step = begin(Request::Config(no_args()), empty_config(), &somewhere());
    let (_, waiting) = saved(step);
    let end = resume(waiting, Reply::Saved(false));
    assert!(end.effects.is_empty());
    assert_eq!(error(&end), Some(TmsError::ConfigError));
}

#[test]
fn search_paths_are_resolved_in_order() {
    let mut args = no_args();
    args.search_paths = Some(strings(&["/one/", "/two", "/three"]));
    args.max_depths = vec![3, 4];
    let step = begin(Request::Config(args), empty_config(), &somewhere());
    let (path, waiting) = asks_canonical(step);
    assert_eq!(path, "/one");
    let step = resume(waiting, Reply::Canonical(Some(PathBuf::from("/real/one"))));
    assert!(step.effects.is_empty());
    let (path, waiting) = asks_canonical(step);
    assert_eq!(path, "/two");
    let step = resume(waiting, Reply::Canonical(Some(PathBuf::from("/real/two"))));
    let (path, waiting) = asks_canonical(step);
    assert_eq!(path, "/three");
    let step = resume(waiting, Reply::Canonical(Some(PathBuf::from("/real/three"))));
    let (config, _) = saved(step);
    let dirs = config.search_dirs.unwrap();
    let found: Vec<(PathBuf, usize)> = dirs.into_iter().map(|d| (d.path, d.depth)).collect();
    assert_eq!(
        found,
        vec![
            (PathBuf::from("/real/one"), 3),
            (PathBuf::from("/real/two"), 4),
            (PathBuf::from("/real/three"), 10),
        ]
    );
    assert_eq!(DEFAULT_DEPTH, 10);
}

#[test]
fn depths_without_a_path_do_not_matter() {
    let mut args = no_args();
    args.search_paths = Some(strings(&["/one"]));
    args.max_depths = vec![3, 4, 5];
    let (_, waiting) = asks_canonical(begin(Request::Config(args), empty_config(), &somewhere()));
    let (config, _) = saved(resume(waiting, Reply::Canonical(Some(PathBuf::from("/one")))));
    let dirs = config.search_dirs.unwrap();
    assert_eq!(dirs.len(), 1);
    assert_eq!(dirs[0].depth, 3);
}

#[test]
fn a_search_path_that_does_not_resolve_is_an_error() {
    let mut args = no_args();
    args.search_paths = Some(strings(&["/one", "/two"]));
    let (_, waiting) = asks_canonical(begin(Request::Config(args), empty_config(), &somewhere()));
    let step = resume(waiting, Reply::Canonical(Some(PathBuf::from("/one"))));
    let (_, waiting) = asks_canonical(step);
    let end = resume(waiting, Reply::Canonical(None));
    assert!(end.effects.is_empty());
    assert_eq!(error(&end), Some(TmsError::IoError));
}

#[test]
fn a_search_path_that_does_not_expand_is_an_error() {
    let mut args = no_args();
    args.search_paths = Some(strings(&["/one", "$TMS_TESTS_NO_SUCH_VARIABLE/x"]));
    let end = begin(Request::Config(args), empty_config(), &somewhere());
    assert!(end.effects.is_empty());
    assert_eq!(error(&end), Some(TmsError::IoError));
}

#[test]
fn removing_from_nothing_is_not_accepted() {
    let mut args = no_args();
    args.search_paths = Some(strings(&["/one"]));
    args.removed_dirs = Some(strings(&["x"]));
    let (_, waiting) = asks_canonical(begin(Request::Config(args), empty_config(), &somewhere()));
    assert!(!is_acceptable(&waiting, &Reply::Canonical(Some(PathBuf::from("/one")))));
    assert!(is_acceptable(&waiting, &Reply::Canonical(None)));
    assert!(!is_acceptable(&waiting, &Reply::Saved(true)));
}

#[test]
fn an_unreadable_configuration_is_an_error() {
    let m = Matches {
        name: "kill".to_string(),
        given: vec![Given { id: "x".to_string(), values: Values::Flags(vec![]) }],
    };
    let step = handle_sub_commands(Some(m), None, &somewhere());
    assert!(step.effects.is_empty());
    assert_eq!(error(&step), Some(TmsError::ConfigError));
}

#[test]
fn without_a_subcommand_the_configuration_is_handed_back() {
    let mut config = empty_config();
    config.default_session = text("main");
    let step = handle_sub_commands(None, Some(config), &somewhere());
    assert!(step.effects.is_empty());
    match step.next {
        Next::Finish(Ok(SubCommandGiven::No(config))) => {
            assert_eq!(config.default_session, text("main"))
        }
        _ => panic!("not handed back"),
    }
}
