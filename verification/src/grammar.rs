//! The command line of the program: its subcommands and their arguments.

use crate::request::{GivenView, MatchesView, ValuesView};
use vstd::prelude::*;

verus! {

/// What the values of an argument are.
#[derive(Clone, Copy, PartialEq, Eq, Structural, Debug)]
pub enum ValueKind {
    Text,
    Number,
    Flag,
}

/// An argument. One without `short` and `long` is positional.
pub struct ArgSpec {
    /// The identifier under which the values are read.
    pub id: &'static str,
    pub short: Option<char>,
    pub long: Option<&'static str>,
    pub required: bool,
    pub min_values: usize,
    /// The largest number of values; `None` where there is no limit.
    pub max_values: Option<usize>,
    pub kind: ValueKind,
    /// How a value is called in the help.
    pub value_name: Option<&'static str>,
    /// It takes all that follows, whatever that looks like.
    pub free_form: bool,
    pub help: &'static str,
}

/// A subcommand.
pub struct CommandSpec {
    pub name: &'static str,
    pub about: &'static str,
    /// Another name for it.
    pub alias: Option<&'static str>,
    /// Without arguments, the help is shown.
    pub needs_args: bool,
    /// There is a flag that shows the help.
    pub help_flag: bool,
    pub args: Vec<ArgSpec>,
}

/// The command line of a program.
pub struct AppSpec {
    pub name: &'static str,
    pub author: &'static str,
    pub about: &'static str,
    pub commands: Vec<CommandSpec>,
}

pub struct ArgView {
    pub id: Seq<char>,
    pub short: Option<char>,
    pub long: Option<Seq<char>>,
    pub required: bool,
    pub min_values: usize,
    pub max_values: Option<usize>,
    pub kind: ValueKind,
    pub value_name: Option<Seq<char>>,
    pub free_form: bool,
    pub help: Seq<char>,
}

pub struct CommandView {
    pub name: Seq<char>,
    pub about: Seq<char>,
    pub alias: Option<Seq<char>>,
    pub needs_args: bool,
    pub help_flag: bool,
    pub args: Seq<ArgView>,
}

pub struct AppView {
    pub name: Seq<char>,
    pub author: Seq<char>,
    pub about: Seq<char>,
    pub commands: Seq<CommandView>,
}

/// The view of an optional text.
pub open spec fn opt_str_view(s: Option<&'static str>) -> Option<Seq<char>> {
    match s {
        Some(s) => Some(s@),
        None => None,
    }
}

impl View for ArgSpec {
    type V = ArgView;

    open spec fn view(&self) -> ArgView {
        ArgView {
            id: self.id@,
            short: self.short,
            long: opt_str_view(self.long),
            required: self.required,
            min_values: self.min_values,
            max_values: self.max_values,
            kind: self.kind,
            value_name: opt_str_view(self.value_name),
            free_form: self.free_form,
            help: self.help@,
        }
    }
}

/// The views of a list of arguments.
pub open spec fn arg_views(args: Seq<ArgSpec>) -> Seq<ArgView> {
    args.map_values(|a: ArgSpec| a@)
}

impl View for CommandSpec {
    type V = CommandView;

    open spec fn view(&self) -> CommandView {
        CommandView {
            name: self.name@,
            about: self.about@,
            alias: opt_str_view(self.alias),
            needs_args: self.needs_args,
            help_flag: self.help_flag,
            args: arg_views(self.args@),
        }
    }
}

/// The views of a list of subcommands.
pub open spec fn command_views(commands: Seq<CommandSpec>) -> Seq<CommandView> {
    commands.map_values(|c: CommandSpec| c@)
}

impl View for AppSpec {
    type V = AppView;

    open spec fn view(&self) -> AppView {
        AppView {
            name: self.name@,
            author: self.author@,
            about: self.about@,
            commands: command_views(self.commands@),
        }
    }
}

/// The command line of the program.
pub open spec fn tms_app() -> AppView {
    AppView {
        name: "tms"@,
        author: "Jared Moulton <jaredmoulton3@gmail.com>"@,
        about: "Scan for all git folders in specified directories, select one and open it as a new tmux session"@,
        commands: tms_commands(),
    }
}

/// The values are of the kind, and as many as, `arg` asks for.
pub open spec fn values_fit(values: ValuesView, arg: ArgView) -> bool {
    let count = match values {
        ValuesView::Texts(v) => v.len(),
        ValuesView::Numbers(v) => v.len(),
        ValuesView::Flags(v) => v.len(),
    };
    &&& match values {
        ValuesView::Texts(_) => arg.kind == ValueKind::Text,
        ValuesView::Numbers(_) => arg.kind == ValueKind::Number,
        ValuesView::Flags(_) => arg.kind == ValueKind::Flag,
    }
    &&& arg.min_values <= count
    &&& arg.max_values matches Some(most) ==> count <= most
}

/// The argument is one of `command`, with values that fit it.
pub open spec fn given_fits(given: GivenView, command: CommandView) -> bool {
    exists|i: int|
        0 <= i < command.args.len() && (#[trigger] command.args[i]).id == given.id && values_fit(
            given.values,
            command.args[i],
        )
}

/// The arguments are those of `command`, there are some where it needs any, and each that is required
/// is among them.
pub open spec fn command_fits(matches: MatchesView, command: CommandView) -> bool {
    &&& matches.name == command.name
    &&& command.needs_args ==> matches.given.len() > 0
    &&& forall|i: int|
        0 <= i < matches.given.len() ==> given_fits(#[trigger] matches.given[i], command)
    &&& forall|i: int|
        0 <= i < command.args.len() && (#[trigger] command.args[i]).required ==> exists|j: int|
            0 <= j < matches.given.len() && (#[trigger] matches.given[j]).id == command.args[i].id
}

/// A subcommand and arguments that `app` declares.
pub open spec fn fits(matches: MatchesView, app: AppView) -> bool {
    exists|i: int|
        0 <= i < app.commands.len() && command_fits(matches, #[trigger] app.commands[i])
}

/// The arguments of `config`.
pub open spec fn config_args() -> Seq<ArgView> {
    seq![
        ArgView {
            id: "search paths"@,
            short: Some('p'),
            long: Some("paths"@),
            required: false,
            min_values: 1,
            max_values: None,
            kind: ValueKind::Text,
            value_name: None,
            free_form: false,
            help: "The paths to search through. Shell like expansions such as `~` are supported"@,
        },
        ArgView {
            id: "default session"@,
            short: Some('s'),
            long: Some("session"@),
            required: false,
            min_values: 1,
            max_values: Some(1),
            kind: ValueKind::Text,
            value_name: None,
            free_form: false,
            help: "The default session to switch to (if available) when killing another session"@,
        },
        ArgView {
            id: "excluded dirs"@,
            short: None,
            long: Some("excluded"@),
            required: false,
            min_values: 1,
            max_values: None,
            kind: ValueKind::Text,
            value_name: None,
            free_form: false,
            help: "As many directory names as desired to not be searched over"@,
        },
        ArgView {
            id: "remove dir"@,
            short: None,
            long: Some("remove"@),
            required: false,
            min_values: 1,
            max_values: None,
            kind: ValueKind::Text,
            value_name: None,
            free_form: false,
            help: "As many directory names to be removed from the exclusion list"@,
        },
        ArgView {
            id: "display full path"@,
            short: None,
            long: Some("full-path"@),
            required: false,
            min_values: 1,
            max_values: Some(1),
            kind: ValueKind::Flag,
            value_name: Some("true | false"@),
            free_form: false,
            help: "Use the full path when displaying directories"@,
        },
        ArgView {
            id: "search submodules"@,
            short: None,
            long: Some("search-submodules"@),
            required: false,
            min_values: 1,
            max_values: Some(1),
            kind: ValueKind::Flag,
            value_name: Some("true | false"@),
            free_form: false,
            help: "Also show initialized submodules"@,
        },
        ArgView {
            id: "recursive submodules"@,
            short: None,
            long: Some("recursive-submodules"@),
            required: false,
            min_values: 1,
            max_values: Some(1),
            kind: ValueKind::Flag,
            value_name: Some("true | false"@),
            free_form: false,
            help: "Search submodules for submodules"@,
        },
        ArgView {
            id: "max depth"@,
            short: Some('d'),
            long: Some("max-depth"@),
            required: false,
            min_values: 1,
            max_values: None,
            kind: ValueKind::Number,
            value_name: None,
            free_form: false,
            help: "The maximum depth to traverse when searching for repositories in the search paths, length should match the number of search paths if specified (defaults to 10)"@,
        },
    ]
}

/// The arguments of `rename`.
pub open spec fn rename_args() -> Seq<ArgView> {
    seq![
        ArgView {
            id: "name"@,
            short: None,
            long: None,
            required: true,
            min_values: 1,
            max_values: Some(1),
            kind: ValueKind::Text,
            value_name: None,
            free_form: false,
            help: "The new session's name"@,
        },
    ]
}

/// The arguments of `refresh`.
pub open spec fn refresh_args() -> Seq<ArgView> {
    seq![
        ArgView {
            id: "name"@,
            short: None,
            long: None,
            required: false,
            min_values: 1,
            max_values: Some(1),
            kind: ValueKind::Text,
            value_name: None,
            free_form: false,
            help: "The session's name. If not provided gets current session"@,
        },
    ]
}

/// The arguments of `split-window`.
pub open spec fn split_window_args() -> Seq<ArgView> {
    seq![
        ArgView {
            id: "args"@,
            short: None,
            long: None,
            required: false,
            min_values: 0,
            max_values: None,
            kind: ValueKind::Text,
            value_name: None,
            free_form: true,
            help: "Anything that works with tmux split-window"@,
        },
    ]
}

/// The subcommands.
pub open spec fn tms_commands() -> Seq<CommandView> {
    seq![
        CommandView {
            name: "config"@,
            about: "Configure the defaults for search paths and excluded directories"@,
            alias: None,
            needs_args: true,
            help_flag: true,
            args: config_args(),
        },
        CommandView {
            name: "start"@,
            about: "Initialize tmux with the default sessions"@,
            alias: None,
            needs_args: false,
            help_flag: true,
            args: Seq::<ArgView>::empty(),
        },
        CommandView {
            name: "switch"@,
            about: "Display other sessions with a fuzzy finder and a preview window"@,
            alias: None,
            needs_args: false,
            help_flag: true,
            args: Seq::<ArgView>::empty(),
        },
        CommandView {
            name: "windows"@,
            about: "Display the current session's windows with a fuzzy finder and a preview window"@,
            alias: None,
            needs_args: false,
            help_flag: true,
            args: Seq::<ArgView>::empty(),
        },
        CommandView {
            name: "kill"@,
            about: "Kill the current tmux session and jump to another"@,
            alias: None,
            needs_args: false,
            help_flag: true,
            args: Seq::<ArgView>::empty(),
        },
        CommandView {
            name: "sessions"@,
            about: "Show running tmux sessions with asterisk on the current session"@,
            alias: None,
            needs_args: false,
            help_flag: true,
            args: Seq::<ArgView>::empty(),
        },
        CommandView {
            name: "rename"@,
            about: "Rename the active session and the working directory"@,
            alias: None,
            needs_args: true,
            help_flag: true,
            args: rename_args(),
        },
        CommandView {
            name: "refresh"@,
            about: "Creates new worktree windows for the selected session"@,
            alias: None,
            needs_args: false,
            help_flag: true,
            args: refresh_args(),
        },
        CommandView {
            name: "split-window"@,
            about: "Mimics the tmux split-window command, but sets the current worktree window as the default path."@,
            alias: Some("splitw"@),
            needs_args: false,
            help_flag: false,
            args: split_window_args(),
        },
    ]
}

/// The subcommand `config`.
fn config_command() -> (r: CommandSpec)
    ensures
        r@ == tms_commands()[0],
{
    let mut args: Vec<ArgSpec> = Vec::new();
    args.push(
        ArgSpec {
            id: "search paths",
            short: Some('p'),
            long: Some("paths"),
            required: false,
            min_values: 1,
            max_values: None,
            kind: ValueKind::Text,
            value_name: None,
            free_form: false,
            help: "The paths to search through. Shell like expansions such as `~` are supported",
        },
    );
    args.push(
        ArgSpec {
            id: "default session",
            short: Some('s'),
            long: Some("session"),
            required: false,
            min_values: 1,
            max_values: Some(1),
            kind: ValueKind::Text,
            value_name: None,
            free_form: false,
            help: "The default session to switch to (if available) when killing another session",
        },
    );
    args.push(
        ArgSpec {
            id: "excluded dirs",
            short: None,
            long: Some("excluded"),
            required: false,
            min_values: 1,
            max_values: None,
            kind: ValueKind::Text,
            value_name: None,
            free_form: false,
            help: "As many directory names as desired to not be searched over",
        },
    );
    args.push(
        ArgSpec {
            id: "remove dir",
            short: None,
            long: Some("remove"),
            required: false,
            min_values: 1,
            max_values: None,
            kind: ValueKind::Text,
            value_name: None,
            free_form: false,
            help: "As many directory names to be removed from the exclusion list",
        },
    );
    args.push(
        ArgSpec {
            id: "display full path",
            short: None,
            long: Some("full-path"),
            required: false,
            min_values: 1,
            max_values: Some(1),
            kind: ValueKind::Flag,
            value_name: Some("true | false"),
            free_form: false,
            help: "Use the full path when displaying directories",
        },
    );
    args.push(
        ArgSpec {
            id: "search submodules",
            short: None,
            long: Some("search-submodules"),
            required: false,
            min_values: 1,
            max_values: Some(1),
            kind: ValueKind::Flag,
            value_name: Some("true | false"),
            free_form: false,
            help: "Also show initialized submodules",
        },
    );
    args.push(
        ArgSpec {
            id: "recursive submodules",
            short: None,
            long: Some("recursive-submodules"),
            required: false,
            min_values: 1,
            max_values: Some(1),
            kind: ValueKind::Flag,
            value_name: Some("true | false"),
            free_form: false,
            help: "Search submodules for submodules",
        },
    );
    args.push(
        ArgSpec {
            id: "max depth",
            short: Some('d'),
            long: Some("max-depth"),
            required: false,
            min_values: 1,
            max_values: None,
            kind: ValueKind::Number,
            value_name: None,
            free_form: false,
            help: "The maximum depth to traverse when searching for repositories in the search paths, length should match the number of search paths if specified (defaults to 10)",
        },
    );
    assert(arg_views(args@) =~= config_args());
    CommandSpec {
        name: "config",
        about: "Configure the defaults for search paths and excluded directories",
        alias: None,
        needs_args: true,
        help_flag: true,
        args,
    }
}

/// The subcommand `start`.
fn start_command() -> (r: CommandSpec)
    ensures
        r@ == tms_commands()[1],
{
    let mut args: Vec<ArgSpec> = Vec::new();
    assert(arg_views(args@) =~= Seq::<ArgView>::empty());
    CommandSpec {
        name: "start",
        about: "Initialize tmux with the default sessions",
        alias: None,
        needs_args: false,
        help_flag: true,
        args,
    }
}

/// The subcommand `switch`.
fn switch_command() -> (r: CommandSpec)
    ensures
        r@ == tms_commands()[2],
{
    let mut args: Vec<ArgSpec> = Vec::new();
    assert(arg_views(args@) =~= Seq::<ArgView>::empty());
    CommandSpec {
        name: "switch",
        about: "Display other sessions with a fuzzy finder and a preview window",
        alias: None,
        needs_args: false,
        help_flag: true,
        args,
    }
}

/// The subcommand `windows`.
fn windows_command() -> (r: CommandSpec)
    ensures
        r@ == tms_commands()[3],
{
    let mut args: Vec<ArgSpec> = Vec::new();
    assert(arg_views(args@) =~= Seq::<ArgView>::empty());
    CommandSpec {
        name: "windows",
        about: "Display the current session's windows with a fuzzy finder and a preview window",
        alias: None,
        needs_args: false,
        help_flag: true,
        args,
    }
}

/// The subcommand `kill`.
fn kill_command() -> (r: CommandSpec)
    ensures
        r@ == tms_commands()[4],
{
    let mut args: Vec<ArgSpec> = Vec::new();
    assert(arg_views(args@) =~= Seq::<ArgView>::empty());
    CommandSpec {
        name: "kill",
        about: "Kill the current tmux session and jump to another",
        alias: None,
        needs_args: false,
        help_flag: true,
        args,
    }
}

/// The subcommand `sessions`.
fn sessions_command() -> (r: CommandSpec)
    ensures
        r@ == tms_commands()[5],
{
    let mut args: Vec<ArgSpec> = Vec::new();
    assert(arg_views(args@) =~= Seq::<ArgView>::empty());
    CommandSpec {
        name: "sessions",
        about: "Show running tmux sessions with asterisk on the current session",
        alias: None,
        needs_args: false,
        help_flag: true,
        args,
    }
}

/// The subcommand `rename`.
fn rename_command() -> (r: CommandSpec)
    ensures
        r@ == tms_commands()[6],
{
    let mut args: Vec<ArgSpec> = Vec::new();
    args.push(
        ArgSpec {
            id: "name",
            short: None,
            long: None,
            required: true,
            min_values: 1,
            max_values: Some(1),
            kind: ValueKind::Text,
            value_name: None,
            free_form: false,
            help: "The new session's name",
        },
    );
    assert(arg_views(args@) =~= rename_args());
    CommandSpec {
        name: "rename",
        about: "Rename the active session and the working directory",
        alias: None,
        needs_args: true,
        help_flag: true,
        args,
    }
}

/// The subcommand `refresh`.
fn refresh_command() -> (r: CommandSpec)
    ensures
        r@ == tms_commands()[7],
{
    let mut args: Vec<ArgSpec> = Vec::new();
    args.push(
        ArgSpec {
            id: "name",
            short: None,
            long: None,
            required: false,
            min_values: 1,
            max_values: Some(1),
            kind: ValueKind::Text,
            value_name: None,
            free_form: false,
            help: "The session's name. If not provided gets current session",
        },
    );
    assert(arg_views(args@) =~= refresh_args());
    CommandSpec {
        name: "refresh",
        about: "Creates new worktree windows for the selected session",
        alias: None,
        needs_args: false,
        help_flag: true,
        args,
    }
}

/// The subcommand `split-window`.
fn split_window_command() -> (r: CommandSpec)
    ensures
        r@ == tms_commands()[8],
{
    let mut args: Vec<ArgSpec> = Vec::new();
    args.push(
        ArgSpec {
            id: "args",
            short: None,
            long: None,
            required: false,
            min_values: 0,
            max_values: None,
            kind: ValueKind::Text,
            value_name: None,
            free_form: true,
            help: "Anything that works with tmux split-window",
        },
    );
    assert(arg_views(args@) =~= split_window_args());
    CommandSpec {
        name: "split-window",
        about: "Mimics the tmux split-window command, but sets the current worktree window as the default path.",
        alias: Some("splitw"),
        needs_args: false,
        help_flag: false,
        args,
    }
}

/// The command line of the program.
pub fn create_app() -> (r: AppSpec)
    ensures
        r@ == tms_app(),
{
    let mut commands: Vec<CommandSpec> = Vec::new();
    commands.push(config_command());
    commands.push(start_command());
    commands.push(switch_command());
    commands.push(windows_command());
    commands.push(kill_command());
    commands.push(sessions_command());
    commands.push(rename_command());
    commands.push(refresh_command());
    commands.push(split_window_command());
    assert(command_views(commands@) =~= tms_commands());
    AppSpec {
        name: "tms",
        author: "Jared Moulton <jaredmoulton3@gmail.com>",
        about: "Scan for all git folders in specified directories, select one and open it as a new tmux session",
        commands,
    }
}

} // verus!
