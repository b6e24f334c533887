use tms::config::Config;
use tms::grammar::{create_app, ArgSpec, CommandSpec, ValueKind};
use tms::handle::is_ready;
use tms::request::{copy_strings, is_complete, read_request, Given, Matches, Request, Values};

fn strings(list: &[&str]) -> Vec<String> {
    list.iter().map(|s| s.to_string()).collect()
}

fn texts(id: &str, list: &[&str]) -> Given {
    Given { id: id.to_string(), values: Values::Texts(strings(list)) }
}

fn numbers(id: &str, list: &[usize]) -> Given {
    Given { id: id.to_string(), values: Values::Numbers(list.to_vec()) }
}

fn flag(id: &str, value: bool) -> Given {
    Given { id: id.to_string(), values: Values::Flags(vec![value]) }
}

fn matches_of(name: &str, given: Vec<Given>) -> Option<Matches> {
    Some(Matches { name: name.to_string(), given })
}

fn empty_config() -> Config {
    Config {
        sessions: None,
        search_dirs: None,
        default_session: None,
        display_full_path: None,
        search_submodules: None,
        recursive_submodules: None,
        excluded_dirs: None,
    }
}

fn command(name: &str) -> CommandSpec {
    create_app().commands.into_iter().find(|c| c.name == name).unwrap()
}

fn arg(command_name: &str, id: &str) -> ArgSpec {
    command(command_name).args.into_iter().find(|a| a.id == id).unwrap()
}

#[test]
fn the_app_has_its_subcommands() {
    let app = create_app();
    assert_eq!(app.name, "tms");
    assert_eq!(app.author, "Jared Moulton <jaredmoulton3@gmail.com>");
    assert_eq!(
        app.about,
        "Scan for all git folders in specified directories, select one and open it as a new tmux session"
    );
    let names: Vec<&str> = app.commands.iter().map(|c| c.name).collect();
    assert_eq!(
        names,
        vec![
            "config",
            "start",
            "switch",
            "windows",
            "kill",
            "sessions",
            "rename",
            "refresh",
            "split-window"
        ]
    );
}

#[test]
fn subcommands_say_how_they_are_called() {
    assert!(command("config").needs_args);
    assert!(command("rename").needs_args);
    assert!(!command("refresh").needs_args);
    assert_eq!(command("split-window").alias, Some("splitw"));
    assert_eq!(command("kill").alias, None);
    assert!(!command("split-window").help_flag);
    assert!(command("kill").help_flag);
    assert_eq!(command("kill").about, "Kill the current tmux session and jump to another");
    assert!(command("start").args.is_empty());
}

#[test]
fn config_takes_its_options() {
    let ids: Vec<&str> = command("config").args.iter().map(|a| a.id).collect();
    assert_eq!(
        ids,
        vec![
            "search paths",
            "default session",
            "excluded dirs",
            "remove dir",
            "display full path",
            "search submodules",
            "recursive submodules",
            "max depth"
        ]
    );
    let depth = arg("config", "max depth");
    assert_eq!(depth.kind, ValueKind::Number);
    assert_eq!(depth.short, Some('d'));
    assert_eq!(depth.long, Some("max-depth"));
    assert_eq!(depth.min_values, 1);
    assert_eq!(depth.max_values, None);
    assert!(!depth.required);
    let full = arg("config", "display full path");
    assert_eq!(full.kind, ValueKind::Flag);
    assert_eq!(full.short, None);
    assert_eq!(full.long, Some("full-path"));
    assert_eq!(full.max_values, Some(1));
    assert_eq!(full.value_name, Some("true | false"));
    let paths = arg("config", "search paths");
    assert_eq!((paths.short, paths.long), (Some('p'), Some("paths")));
    let session = arg("config", "default session");
    assert_eq!((session.short, session.long), (Some('s'), Some("session")));
    assert_eq!(arg("config", "excluded dirs").long, Some("excluded"));
    assert_eq!(arg("config", "remove dir").long, Some("remove"));
    assert_eq!(arg("config", "search submodules").long, Some("search-submodules"));
    assert_eq!(arg("config", "recursive submodules").long, Some("recursive-submodules"));
}

#[test]
fn positional_arguments_are_declared() {
    let name = arg("rename", "name");
    assert!(name.required);
    assert_eq!((name.short, name.long), (None, None));
    assert!(!arg("refresh", "name").required);
    let rest = arg("split-window", "args");
    assert!(rest.free_form);
    assert!(!rest.required);
    assert_eq!((rest.min_values, rest.max_values), (0, None));
}

#[test]
fn every_declared_subcommand_is_handled() {
    for c in create_app().commands {
        let given = if c.name == "rename" { vec![texts("name", &["x"])] } else { vec![] };
        let m = matches_of(c.name, given);
        assert!(is_complete(&m));
        assert!(!matches!(read_request(&m), Request::Other), "{}", c.name);
    }
}

#[test]
fn other_subcommands_are_not_handled() {
    assert!(matches!(read_request(&None), Request::Other));
    assert!(matches!(read_request(&matches_of("splitw", vec![])), Request::Other));
    assert!(matches!(read_request(&matches_of("", vec![])), Request::Other));
}

#[test]
fn plain_subcommands_are_read() {
    assert!(matches!(read_request(&matches_of("start", vec![])), Request::Start));
    assert!(matches!(read_request(&matches_of("switch", vec![])), Request::Switch));
    assert!(matches!(read_request(&matches_of("windows", vec![])), Request::Windows));
    assert!(matches!(read_request(&matches_of("kill", vec![])), Request::Kill));
    assert!(matches!(read_request(&matches_of("sessions", vec![])), Request::Sessions));
}

#[test]
fn names_and_rest_arguments_are_read() {
    match read_request(&matches_of("rename", vec![texts("name", &["new"])])) {
        Request::Rename(name) => assert_eq!(name, "new"),
        _ => panic!("rename"),
    }
    match read_request(&matches_of("refresh", vec![texts("name", &["other"])])) {
        Request::Refresh(name) => assert_eq!(name, Some("other".to_string())),
        _ => panic!("refresh"),
    }
    match read_request(&matches_of("refresh", vec![])) {
        Request::Refresh(name) => assert_eq!(name, None),
        _ => panic!("refresh"),
    }
    match read_request(&matches_of("split-window", vec![texts("args", &["-h", "-c", "/x"])])) {
        Request::SplitWindow(args) => assert_eq!(args, strings(&["-h", "-c", "/x"])),
        _ => panic!("split-window"),
    }
    match read_request(&matches_of("split-window", vec![])) {
        Request::SplitWindow(args) => assert!(args.is_empty()),
        _ => panic!("split-window"),
    }
}

#[test]
fn split_window_takes_any_number_of_arguments() {
    let args = ["-b", "-d", "-f", "-h", "-l", "20", "-t", "x", "-c", "/p"];
    let rest = arg("split-window", "args");
    assert!(rest.min_values <= args.len());
    assert_eq!(rest.max_values, None);
    match read_request(&matches_of("split-window", vec![texts("args", &args)])) {
        Request::SplitWindow(read) => assert_eq!(read, strings(&args)),
        _ => panic!("split-window"),
    }
}

#[test]
fn config_arguments_are_read() {
    let m = matches_of(
        "config",
        vec![
            texts("search paths", &["~/work", "/srv/"]),
            numbers("max depth", &[3]),
            texts("default session", &["main"]),
            texts("excluded dirs", &["node_modules", "target"]),
            texts("remove dir", &["dist"]),
            flag("display full path", true),
            flag("search submodules", false),
            flag("recursive submodules", true),
        ],
    );
    match read_request(&m) {
        Request::Config(args) => {
            assert_eq!(args.search_paths, Some(strings(&["~/work", "/srv/"])));
            assert_eq!(args.max_depths, vec![3]);
            assert_eq!(args.default_session, Some("main".to_string()));
            assert_eq!(args.excluded_dirs, Some(strings(&["node_modules", "target"])));
            assert_eq!(args.removed_dirs, Some(strings(&["dist"])));
            assert_eq!(args.display_full_path, Some(true));
            assert_eq!(args.search_submodules, Some(false));
            assert_eq!(args.recursive_submodules, Some(true));
        }
        _ => panic!("config"),
    }
    match read_request(&matches_of("config", vec![])) {
        Request::Config(args) => {
            assert_eq!(args.search_paths, None);
            assert!(args.max_depths.is_empty());
            assert_eq!(args.default_session, None);
            assert_eq!(args.excluded_dirs, None);
            assert_eq!(args.removed_dirs, None);
            assert_eq!(args.display_full_path, None);
            assert_eq!(args.search_submodules, None);
            assert_eq!(args.recursive_submodules, None);
        }
        _ => panic!("config"),
    }
}

#[test]
fn rename_without_a_name_is_incomplete() {
    assert!(!is_complete(&matches_of("rename", vec![])));
    assert!(!is_complete(&matches_of("rename", vec![texts("name", &[])])));
    assert!(is_complete(&matches_of("refresh", vec![])));
    assert!(!is_ready(&matches_of("rename", vec![]), &Some(empty_config())));
    assert!(is_ready(&matches_of("rename", vec![]), &None));
    assert!(is_ready(&None, &Some(empty_config())));
}

#[test]
fn removing_needs_excluded_directories() {
    let remove = || matches_of("config", vec![texts("remove dir", &["x"])]);
    assert!(!is_ready(&remove(), &Some(empty_config())));
    let mut config = empty_config();
    config.excluded_dirs = Some(vec![]);
    assert!(is_ready(&remove(), &Some(config)));
    let both = matches_of(
        "config",
        vec![texts("remove dir", &["x"]), texts("excluded dirs", &["y"])],
    );
    assert!(is_ready(&both, &Some(empty_config())));
    // With search paths, these are resolved first.
    let later = matches_of(
        "config",
        vec![texts("remove dir", &["x"]), texts("search paths", &["/srv"])],
    );
    assert!(is_ready(&later, &Some(empty_config())));
}

#[test]
fn lists_are_copied() {
    let list = strings(&["a", "b"]);
    assert_eq!(copy_strings(&list), list);
}
