use tms::config::Config;
use tms::expansion::Environment;
use tms::handle::{begin, handle_sub_commands, is_acceptable, is_ready, resume};
use tms::kill::{choose_target, read_current};
use tms::list::show_sessions;
use tms::pick::read_choices;
use tms::protocol::{
    Effect, Next, Query, Reply, Step, SubCommandGiven, TmsError, Waiting, Worktree,
};
use tms::refresh::{create_window, read_windows, readable_names};
use tms::rename::{is_pane_list, plan_rename, read_panes};
use tms::request::{Given, Matches, Request, Values};
use tms::split_window::{filter_args, read_value};

fn strings(list: &[&str]) -> Vec<String> {
    list.iter().map(|s| s.to_string()).collect()
}

fn empty_config() -> Config {
    Config {
        sessions: None,
        search_dirs: None,
        default_session: None,
        display_full_path: None,
        search_submodules: None,
        recursive_submodules: None,
        excluded_dirs: None,
    }
}

fn nowhere() -> Environment {
    Environment { home: None, variables: vec![] }
}

fn out(text: &str) -> Reply {
    Reply::Output(text.as_bytes().to_vec())
}

fn effect(e: &Effect) -> String {
    match e {
        Effect::Tmux(command) => command.clone(),
        Effect::Run(program, args) => format!("{} {:?}", program, args),
        Effect::Print(line) => format!("print {}", line),
        Effect::Sleep(millis) => format!("sleep {}", millis),
    }
}

fn query(q: &Query) -> String {
    match q {
        Query::TmuxOutput(command) => command.clone(),
        Query::Select(choices, preview) => format!("select {:?} {}", choices, preview),
        Query::Canonicalize(path) => format!("canonicalize {}", path),
        Query::SaveConfig(_) => "save".to_string(),
        Query::OpenRepository(path) => format!("open {}", path),
        Query::Worktrees => "worktrees".to_string(),
        Query::Bare => "bare".to_string(),
        Query::RepositoryPath => "path".to_string(),
        Query::Worktree(name) => format!("worktree {}", name),
    }
}

/// What a run asked and did, in order, and how it ended; the answers have to be used up.
struct Played {
    log: Vec<String>,
    end: Result<(), TmsError>,
}

fn play(first: Step, replies: Vec<Reply>) -> Played {
    let mut log: Vec<String> = Vec::new();
    let mut step = first;
    let mut left = replies.into_iter();
    loop {
        log.extend(step.effects.iter().map(|e| format!("do {}", effect(e))));
        match step.next {
            Next::Finish(outcome) => {
                assert!(left.next().is_none(), "answers are left");
                let end = match outcome {
                    Ok(SubCommandGiven::Yes) => Ok(()),
                    Ok(SubCommandGiven::No(_)) => panic!("not dealt with"),
                    Err(failure) => {
                        assert!(failure.missing.is_none());
                        Err(failure.error)
                    }
                };
                return Played { log, end };
            }
            Next::Ask(q, waiting) => {
                log.push(format!("ask {}", query(&q)));
                let reply = left.next().expect("an answer is missing");
                assert!(is_acceptable(&waiting, &reply));
                step = resume(waiting, reply);
            }
        }
    }
}

fn waiting_after(first: Step, replies: Vec<Reply>) -> Waiting {
    let mut step = first;
    for reply in replies {
        match step.next {
            Next::Ask(_, waiting) => step = resume(waiting, reply),
            Next::Finish(_) => panic!("over"),
        }
    }
    match step.next {
        Next::Ask(_, waiting) => waiting,
        Next::Finish(_) => panic!("over"),
    }
}

#[test]
fn kill_jumps_and_kills() {
    let played = play(
        begin(Request::Kill, empty_config(), &nowhere()),
        vec![out("'dev'\n"), out("dev\nmain\nother\n")],
    );
    assert_eq!(
        played.log,
        vec![
            "ask tmux display-message -p '#S'",
            "ask tmux list-sessions -F #S",
            "do tmux switch-client -t main",
            "do tmux kill-session -t dev",
        ]
    );
    assert!(played.end.is_ok());
}

#[test]
fn kill_prefers_the_default_session() {
    let mut config = empty_config();
    config.default_session = Some("other".to_string());
    let played = play(begin(Request::Kill, config, &nowhere()), vec![out("main\n"), out("dev\nmain\nother\n")]);
    assert_eq!(
        played.log[2..],
        ["do tmux switch-client -t other", "do tmux kill-session -t main"]
    );
}

#[test]
fn the_target_of_kill() {
    let running = strings(&["a", "b", "c"]);
    let default = |s: &str| Some(s.to_string());
    assert_eq!(choose_target("a", &running, &None), "b");
    assert_eq!(choose_target("b", &running, &None), "a");
    assert_eq!(choose_target("a", &running, &default("c")), "c");
    assert_eq!(choose_target("c", &running, &default("c")), "a");
    assert_eq!(choose_target("a", &running, &default("a")), "b");
    assert_eq!(choose_target("b", &running, &default("gone")), "a");
    assert_eq!(choose_target("a", &strings(&["a"]), &None), "a");
    assert_eq!(choose_target("x", &strings(&["a"]), &None), "a");
}

#[test]
fn kill_needs_a_session() {
    let waiting = waiting_after(begin(Request::Kill, empty_config(), &nowhere()), vec![out("a\n")]);
    assert!(!is_acceptable(&waiting, &out("")));
    assert!(is_acceptable(&waiting, &out("\n")));
    assert!(!is_acceptable(&waiting, &Reply::Output(vec![0xff])));
    assert!(!is_acceptable(&waiting, &Reply::Bare(true)));
}

#[test]
fn the_current_session_is_read_without_quotes() {
    assert_eq!(read_current("'my session'\n"), "my session");
    assert_eq!(read_current(""), "");
}

#[test]
fn sessions_are_shown_with_an_asterisk_on_the_current() {
    let played = play(
        begin(Request::Sessions, empty_config(), &nowhere()),
        vec![out("'main'\n"), out("dev\nmain\nother\n")],
    );
    assert_eq!(
        played.log,
        vec![
            "ask tmux display-message -p '#S'",
            "ask tmux list-sessions -F #S",
            "do print dev main* other  ",
            "do sleep 100",
            "do tmux refresh-client -S",
        ]
    );
    assert!(played.end.is_ok());
}

#[test]
fn the_asterisk_stands_on_the_current_session_alone() {
    let list = strings(&["a", "b", "ab"]);
    assert_eq!(show_sessions("b", &list), "a b* ab ");
    assert_eq!(show_sessions("x", &list), "a b ab ");
    assert_eq!(show_sessions("x", &vec![]), "");
}

#[test]
fn switch_goes_to_the_chosen_session() {
    let played = play(
        begin(Request::Switch, empty_config(), &nowhere()),
        vec![
            out("'a\n'\n'my.b\n"),
            Reply::Selection(Ok(Some("my.b".to_string()))),
        ],
    );
    assert_eq!(
        played.log,
        vec![
            "ask tmux list-sessions -F '#{?session_attached,,#{session_name}}",
            "ask select [\"a\", \"my.b\"] tmux capture-pane -ept {}",
            "do tmux switch-client -t my_b",
        ]
    );
    assert!(played.end.is_ok());
}

#[test]
fn windows_goes_to_the_chosen_window() {
    let played = play(
        begin(Request::Windows, empty_config(), &nowhere()),
        vec![out("edit\nrun\n"), Reply::Selection(Ok(Some("run".to_string())))],
    );
    assert_eq!(
        played.log,
        vec![
            "ask tmux list-windows -F '#{?window_attached,,#{window_name}}",
            "ask select [\"edit\", \"run\"] tmux capture-pane -ept {}",
            "do tmux select-window -t run",
        ]
    );
}

#[test]
fn choosing_nothing_does_nothing() {
    for request in [Request::Switch, Request::Windows] {
        let played =
            play(begin(request, empty_config(), &nowhere()), vec![out("a\n"), Reply::Selection(Ok(None))]);
        assert_eq!(played.log.len(), 2);
        assert!(played.end.is_ok());
    }
}

#[test]
fn an_error_of_the_selection_is_passed_on() {
    let played = play(
        begin(Request::Switch, empty_config(), &nowhere()),
        vec![out("a\n"), Reply::Selection(Err(TmsError::SelectionError))],
    );
    assert_eq!(played.end, Err(TmsError::SelectionError));
    assert_eq!(played.log.len(), 2);
}

#[test]
fn choices_are_the_lines_of_the_listing() {
    assert_eq!(read_choices("'a\n\n'b\n"), strings(&["a", "b"]));
    assert_eq!(read_choices("\n\na\n"), strings(&["a"]));
    assert_eq!(read_choices("a\n\n\nb"), strings(&["a", "", "b"]));
    assert_eq!(read_choices(""), strings(&[""]));
}

#[test]
fn empty_entries_are_not_offered() {
    // Where an attached entry stands first, in between or last, an empty line is left in its place.
    assert_eq!(read_choices("\n'a\n'b\n"), strings(&["a", "b"]));
    assert_eq!(read_choices("'a\n\n'b\n\n'c\n"), strings(&["a", "b", "c"]));
    assert_eq!(read_choices("'a\n'b\n\n"), strings(&["a", "b"]));
}

#[test]
fn rename_moves_the_directory_and_takes_the_panes_along() {
    let played = play(
        begin(Request::Rename("new".to_string()), empty_config(), &nowhere()),
        vec![out("old\n"), out("0.0,zsh,/srv/old\n0.1,vim,/srv/old/src\n1.0,top,/tmp\n")],
    );
    assert_eq!(
        played.log,
        vec![
            "ask tmux display-message -p '#S'",
            "ask tmux list-panes -s -F '#{window_index}.#{pane_index},#{pane_current_command},#{pane_current_path}'",
            "do mv [\"/srv/old\", \"/srv/new\"]",
            "do tmux send-keys -t 0.0 \"cd /srv/new\" Enter",
            "do tmux send-keys -t 0.1 \"cd /srv/new/src\" Enter",
            "do tmux send-keys -t 1.0 \"cd /tmp\" Enter",
            "do tmux rename-session new",
            "do tmux attach -c /srv/new",
        ]
    );
    assert!(played.end.is_ok());
}

#[test]
fn rename_to_the_same_name_moves_nothing() {
    let played = play(
        begin(Request::Rename("old".to_string()), empty_config(), &nowhere()),
        vec![out("old\n"), out("0.0,zsh,/srv/old\n")],
    );
    assert_eq!(
        played.log[2..4],
        ["do mv [\"/srv/old\", \"/srv/old\"]", "do tmux send-keys -t 0.0 \"cd /srv/old\" Enter"]
    );
}

#[test]
fn the_last_line_of_a_pane_counts() {
    let panes = read_panes("0.0,zsh,/a\n0.0,zsh,/b\n");
    assert_eq!(panes.len(), 2);
    let log: Vec<String> = plan_rename(&panes, "b", "c").iter().map(effect).collect();
    assert_eq!(
        log,
        vec![
            "mv [\"/b\", \"/c\"]",
            "tmux send-keys -t 0.0 \"cd /c\" Enter",
            "tmux send-keys -t 0.0 \"cd /c\" Enter",
            "tmux rename-session c",
            "tmux attach -c /c",
        ]
    );
}

#[test]
fn panes_are_read_field_by_field() {
    let panes = read_panes(" 0.0,zsh,/a,b\n1.2,,\n");
    assert_eq!(panes.len(), 2);
    assert_eq!(panes[0].index, "0.0");
    assert_eq!(panes[0].command, "zsh");
    assert_eq!(panes[0].cwd, "/a");
    assert_eq!(panes[1].index, "1.2");
    assert_eq!(panes[1].command, "");
    assert_eq!(panes[1].cwd, "");
}

#[test]
fn rename_needs_a_listing_of_panes() {
    assert!(is_pane_list("0.0,zsh,/a\n"));
    assert!(!is_pane_list("0.0,zsh\n"));
    assert!(!is_pane_list(""));
    assert!(!is_pane_list("0.0,zsh,/a\n\n0.1,zsh,/b"));
    let waiting = waiting_after(
        begin(Request::Rename("new".to_string()), empty_config(), &nowhere()),
        vec![out("old\n")],
    );
    assert!(!is_acceptable(&waiting, &out("0.0\n")));
    assert!(is_acceptable(&waiting, &out("0.0,zsh,/a\n")));
}

fn tree(path: &str) -> Reply {
    Reply::Worktree(Some(Worktree { prunable: Some(false), path: Some(path.to_string()) }))
}

fn names(list: &[&str]) -> Reply {
    Reply::Worktrees(Some(list.iter().map(|s| Some(s.to_string())).collect()))
}

#[test]
fn refresh_opens_the_missing_windows() {
    let played = play(
        begin(Request::Refresh(None), empty_config(), &nowhere()),
        vec![
            out("'/srv/repo'\n"),
            out("'work'\n"),
            out("'main'\n'one'\n"),
            Reply::Opened(true),
            names(&["one", "two", "three", "four"]),
            tree("/srv/one"),
            tree("/srv/two"),
            Reply::Worktree(Some(Worktree { prunable: Some(true), path: None })),
            Reply::Worktree(Some(Worktree { prunable: None, path: Some("/srv/four".to_string()) })),
            Reply::Bare(false),
            out("main\none\ntwo\nfour\n"),
        ],
    );
    assert_eq!(
        played.log,
        vec![
            "ask tmux display-message -p '#{session_path}'",
            "ask tmux display-message -p '#S'",
            "ask tmux list-windows -t work -F '#{window_name}'",
            "ask open /srv/repo",
            "ask worktrees",
            "ask worktree one",
            "ask worktree two",
            "do tmux [\"new-window\", \"-t\", \"work\", \"-c\", \"/srv/two\", \"-n\", \"two\"]",
            "ask worktree three",
            "ask worktree four",
            "do tmux [\"new-window\", \"-t\", \"work\", \"-c\", \"/srv/four\", \"-n\", \"four\"]",
            "ask bare",
            "ask tmux list-windows -t work -F '#{window_name}'",
        ]
    );
    assert!(played.end.is_ok());
}

#[test]
fn refresh_opens_a_window_for_the_repository() {
    let played = play(
        begin(Request::Refresh(Some(" 'given' ".to_string())), empty_config(), &nowhere()),
        vec![
            out("/srv/repo\n"),
            out("current\n"),
            out("one\n"),
            Reply::Opened(true),
            names(&["one"]),
            tree("/srv/one"),
            Reply::Bare(false),
            out("one\n"),
        ],
    );
    assert_eq!(
        played.log[2..],
        [
            "ask tmux list-windows -t given -F '#{window_name}'",
            "ask open /srv/repo",
            "ask worktrees",
            "ask worktree one",
            "ask bare",
            "ask tmux list-windows -t given -F '#{window_name}'",
            "do tmux [\"new-window\", \"-t\", \"given\", \"-c\", \"/srv/repo\"]",
        ]
    );
}

#[test]
fn refresh_again_opens_nothing() {
    let played = play(
        begin(Request::Refresh(None), empty_config(), &nowhere()),
        vec![
            out("/srv/repo\n"),
            out("work\n"),
            out("main\none\ntwo\n"),
            Reply::Opened(true),
            names(&["one", "two"]),
            tree("/srv/one"),
            tree("/srv/two"),
            Reply::Bare(false),
            out("main\none\ntwo\n"),
        ],
    );
    assert!(played.log.iter().all(|line| line.starts_with("ask")));
    assert!(played.end.is_ok());
}

#[test]
fn refresh_of_a_bare_repository_opens_no_window_for_it() {
    let played = play(
        begin(Request::Refresh(None), empty_config(), &nowhere()),
        vec![
            out("/srv/repo\n"),
            out("work\n"),
            out(""),
            Reply::Opened(true),
            names(&["one"]),
            tree("/srv/one"),
            Reply::Bare(true),
        ],
    );
    assert_eq!(
        played.log.last().unwrap(),
        "ask bare"
    );
    assert_eq!(
        played.log[6],
        "do tmux [\"new-window\", \"-t\", \"work\", \"-c\", \"/srv/one\", \"-n\", \"one\"]"
    );
    assert!(played.end.is_ok());
}

#[test]
fn refresh_without_a_repository_does_nothing() {
    let played = play(
        begin(Request::Refresh(None), empty_config(), &nowhere()),
        vec![out("/srv\n"), out("work\n"), out("a\n"), Reply::Opened(false)],
    );
    assert_eq!(played.log.len(), 4);
    assert!(played.end.is_ok());
}

#[test]
fn refresh_goes_on_where_worktrees_cannot_be_listed() {
    let played = play(
        begin(Request::Refresh(None), empty_config(), &nowhere()),
        vec![
            out("/srv\n"),
            out("work\n"),
            out("a\n"),
            Reply::Opened(true),
            Reply::Worktrees(None),
            Reply::Bare(false),
            out(""),
        ],
    );
    assert_eq!(
        played.log.last().unwrap(),
        "do tmux [\"new-window\", \"-t\", \"work\", \"-c\", \"/srv\"]"
    );
}

#[test]
fn refresh_fails_on_a_worktree_that_is_not_found() {
    let played = play(
        begin(Request::Refresh(None), empty_config(), &nowhere()),
        vec![
            out("/srv\n"),
            out("work\n"),
            out("\n"),
            Reply::Opened(true),
            names(&["one", "two", "three"]),
            tree("/srv/one"),
            Reply::Worktree(None),
        ],
    );
    assert_eq!(played.end, Err(TmsError::GitError));
    assert_eq!(played.log.iter().filter(|line| line.starts_with("do")).count(), 1);
}

#[test]
fn refresh_fails_on_a_path_that_is_not_text() {
    let played = play(
        begin(Request::Refresh(None), empty_config(), &nowhere()),
        vec![
            out("/srv\n"),
            out("work\n"),
            out("\n"),
            Reply::Opened(true),
            names(&["one"]),
            Reply::Worktree(Some(Worktree { prunable: None, path: None })),
        ],
    );
    assert_eq!(played.end, Err(TmsError::NonUtf8Path));
    assert!(played.log.iter().all(|line| line.starts_with("ask")));
}

#[test]
fn names_that_are_not_text_are_left_out() {
    let list = vec![Some("a".to_string()), None, Some("b".to_string())];
    assert_eq!(readable_names(list), strings(&["a", "b"]));
    assert!(readable_names(vec![]).is_empty());
}

#[test]
fn windows_are_read_without_quotes() {
    assert_eq!(read_windows("'a'\n'b c'\n"), strings(&["a", "b c"]));
    assert_eq!(
        effect(&create_window("s", "/p", None)),
        "tmux [\"new-window\", \"-t\", \"s\", \"-c\", \"/p\"]"
    );
}

#[test]
fn split_window_starts_in_the_worktree() {
    let played = play(
        begin(Request::SplitWindow(strings(&["-h"])), empty_config(), &nowhere()),
        vec![
            out("'/srv/repo'\n"),
            out("'feature'\n"),
            Reply::Opened(true),
            Reply::RepositoryPath(Some("/srv/repo/.git/".to_string())),
            tree("/srv/feature"),
        ],
    );
    assert_eq!(
        played.log,
        vec![
            "ask tmux display-message -p '#{session_path}'",
            "ask tmux display-message -p '#{window_name}'",
            "ask open /srv/repo",
            "ask path",
            "ask worktree feature",
            "do tmux [\"split-window\", \"-h\", \"-c\", \"/srv/feature\"]",
        ]
    );
    assert!(played.end.is_ok());
}

#[test]
fn split_window_falls_back_to_the_repository() {
    let played = play(
        begin(Request::SplitWindow(vec![]), empty_config(), &nowhere()),
        vec![
            out("/srv/repo\n"),
            out("main\n"),
            Reply::Opened(true),
            Reply::RepositoryPath(Some("/srv/repo/.git/".to_string())),
            Reply::Worktree(None),
        ],
    );
    assert_eq!(
        played.log.last().unwrap(),
        "do tmux [\"split-window\", \"-c\", \"/srv/repo/.git/\"]"
    );
}

#[test]
fn split_window_in_a_worktree_without_a_readable_path_gives_none() {
    let played = play(
        begin(Request::SplitWindow(vec![]), empty_config(), &nowhere()),
        vec![
            out("/srv/repo\n"),
            out("main\n"),
            Reply::Opened(true),
            Reply::RepositoryPath(Some("/srv/repo/.git/".to_string())),
            Reply::Worktree(Some(Worktree { prunable: None, path: None })),
        ],
    );
    assert_eq!(played.log.last().unwrap(), "do tmux [\"split-window\"]");
}

#[test]
fn split_window_without_a_repository_gives_no_directory() {
    let played = play(
        begin(Request::SplitWindow(strings(&["-v", "-c"])), empty_config(), &nowhere()),
        vec![out("/srv\n"), out("main\n"), Reply::Opened(false)],
    );
    assert_eq!(played.log.last().unwrap(), "do tmux [\"split-window\", \"-v\"]");
}

#[test]
fn split_window_uses_the_directory_it_is_given() {
    let played = play(
        begin(Request::SplitWindow(strings(&["-c", "/tmp", "-h", "vim"])), empty_config(), &nowhere()),
        vec![out("/srv\n"), out("main\n")],
    );
    assert_eq!(
        played.log,
        vec![
            "ask tmux display-message -p '#{session_path}'",
            "ask tmux display-message -p '#{window_name}'",
            "do tmux [\"split-window\", \"-h\", \"vim\", \"-c\", \"/tmp\"]",
        ]
    );
}

#[test]
fn directories_are_taken_out_of_the_arguments() {
    let none: Option<String> = None;
    assert_eq!(filter_args(&strings(&["-h", "x"])), (strings(&["-h", "x"]), none.clone()));
    assert_eq!(filter_args(&strings(&["-c"])), (vec![], none));
    assert_eq!(
        filter_args(&strings(&["-c", "/a", "y", "-c", "/b"])),
        (strings(&["y"]), Some("/b".to_string()))
    );
    assert_eq!(
        filter_args(&strings(&["-c", "-c", "z"])),
        (strings(&["z"]), Some("-c".to_string()))
    );
    assert_eq!(
        filter_args(&strings(&["-c", "/a", "-c"])),
        (vec![], Some("/a".to_string()))
    );
}

#[test]
fn values_are_read_without_quotes_and_white_space() {
    assert_eq!(read_value(" '/srv/it''s' \n"), "/srv/its");
}

#[test]
fn a_command_line_is_handled_from_the_start() {
    let m = Some(Matches {
        name: "rename".to_string(),
        given: vec![Given {
            id: "name".to_string(),
            values: Values::Texts(strings(&["new"])),
        }],
    });
    let config = Some(empty_config());
    assert!(is_ready(&m, &config));
    let played = play(
        handle_sub_commands(m, config, &nowhere()),
        vec![out("old\n"), out("0.0,zsh,/old\n")],
    );
    assert_eq!(played.log[4], "do tmux rename-session new");
}

#[test]
fn answers_of_the_wrong_kind_are_not_accepted() {
    let first = |request: Request| waiting_after(begin(request, empty_config(), &nowhere()), vec![]);
    for reply in [
        Reply::Selection(Ok(None)),
        Reply::Saved(true),
        Reply::Opened(true),
        Reply::Worktrees(None),
        Reply::Bare(true),
        Reply::RepositoryPath(None),
        Reply::Worktree(None),
        Reply::Canonical(None),
    ] {
        assert!(!is_acceptable(&first(Request::Switch), &reply));
        assert!(!is_acceptable(&first(Request::Sessions), &reply));
        assert!(!is_acceptable(&first(Request::Refresh(None)), &reply));
        assert!(!is_acceptable(&first(Request::SplitWindow(vec![])), &reply));
    }
    let choice = waiting_after(begin(Request::Switch, empty_config(), &nowhere()), vec![out("a")]);
    assert!(!is_acceptable(&choice, &out("a")));
    let opened = waiting_after(
        begin(Request::Refresh(None), empty_config(), &nowhere()),
        vec![out("a"), out("b"), out("c")],
    );
    assert!(!is_acceptable(&opened, &Reply::Bare(true)));
    assert!(is_acceptable(&opened, &Reply::Opened(false)));
}
