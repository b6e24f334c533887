//! Laws of the command line: what it declares and what is read of it belong together.

use crate::grammar::{command_fits, fits, given_fits, tms_app, tms_commands, values_fit, ValueKind};
use crate::request::{
    complete, config_args_of, request_of, values_of, GivenView, MatchesView, RequestView,
    ValuesView,
};
use vstd::prelude::*;

verus! {

/// The names of the subcommands are all different.
proof fn lemma_names()
    ensures
        tms_commands().len() == 9,
        tms_commands()[0].name == "config"@,
        tms_commands()[1].name == "start"@,
        tms_commands()[2].name == "switch"@,
        tms_commands()[3].name == "windows"@,
        tms_commands()[4].name == "kill"@,
        tms_commands()[5].name == "sessions"@,
        tms_commands()[6].name == "rename"@,
        tms_commands()[7].name == "refresh"@,
        tms_commands()[8].name == "split-window"@,
        forall|i: int, j: int|
            0 <= i < j < 9 ==> (#[trigger] tms_commands()[i]).name != (
            #[trigger] tms_commands()[j]).name,
{
    reveal_strlit("config");
    reveal_strlit("start");
    reveal_strlit("switch");
    reveal_strlit("windows");
    reveal_strlit("kill");
    reveal_strlit("sessions");
    reveal_strlit("rename");
    reveal_strlit("refresh");
    reveal_strlit("split-window");
    assert("config"@[0] == 'c' && "start"@[1] == 't' && "switch"@[1] == 'w' && "windows"@[0] == 'w'
        && "kill"@[0] == 'k' && "sessions"@[1] == 'e' && "rename"@[2] == 'n' && "refresh"@[2] == 'f'
        && "split-window"@[1] == 'p');
}

/// A subcommand is handled if and only if it is declared, and no two are declared under one name.
pub proof fn law_declared_is_handled(m: MatchesView)
    ensures
        !(request_of(Some(m)) is Other) <==> exists|i: int|
            0 <= i < tms_commands().len() && (#[trigger] tms_commands()[i]).name == m.name,
        forall|i: int, j: int|
            0 <= i < j < tms_commands().len() ==> (#[trigger] tms_commands()[i]).name != (
            #[trigger] tms_commands()[j]).name,
{
    lemma_names();
    if !(request_of(Some(m)) is Other) {
        let i: int = if m.name == "config"@ {
            0
        } else if m.name == "start"@ {
            1
        } else if m.name == "switch"@ {
            2
        } else if m.name == "windows"@ {
            3
        } else if m.name == "kill"@ {
            4
        } else if m.name == "sessions"@ {
            5
        } else if m.name == "rename"@ {
            6
        } else if m.name == "refresh"@ {
            7
        } else {
            8
        };
        assert(tms_commands()[i].name == m.name);
    }
}

/// The values that are read for an identifier are those of an argument given under it.
proof fn lemma_values_of(given: Seq<GivenView>, id: Seq<char>)
    ensures
        match values_of(given, id) {
            Some(values) => exists|i: int|
                0 <= i < given.len() && (#[trigger] given[i]).id == id && given[i].values == values,
            None => forall|i: int| 0 <= i < given.len() ==> (#[trigger] given[i]).id != id,
        },
    decreases given.len(),
{
    if given.len() > 0 && given.first().id != id {
        let rest = given.drop_first();
        lemma_values_of(rest, id);
        match values_of(rest, id) {
            Some(values) => {
                let i = choose|i: int|
                    0 <= i < rest.len() && (#[trigger] rest[i]).id == id && rest[i].values
                        == values;
                assert(given[i + 1] == rest[i]);
            },
            None => {
                assert forall|i: int| 0 <= i < given.len() implies (#[trigger] given[i]).id
                    != id by {
                    if i > 0 {
                        assert(rest[i - 1] == given[i]);
                    }
                }
            },
        }
    } else if given.len() > 0 {
        assert(given[0].id == id);
    }
}

/// A command line that fits what is declared is complete: `rename` has its name.
pub proof fn law_fitting_is_complete(m: MatchesView)
    requires
        fits(m, tms_app()),
    ensures
        complete(Some(m)),
        !(request_of(Some(m)) is Other),
{
    lemma_names();
    law_declared_is_handled(m);
    let i = choose|i: int|
        0 <= i < tms_app().commands.len() && command_fits(m, #[trigger] tms_app().commands[i]);
    let command = tms_commands()[i];
    assert(command.name == m.name);
    if m.name == "rename"@ {
        assert(tms_commands()[6].name == m.name);
        assert(i == 6);
        assert(command.args[0].id == "name"@ && command.args[0].required);
        assert(command.args.len() == 1);
        let j = choose|j: int|
            0 <= j < m.given.len() && (#[trigger] m.given[j]).id == command.args[0].id;
        lemma_values_of(m.given, "name"@);
        let values = values_of(m.given, "name"@)->0;
        let k = choose|k: int|
            0 <= k < m.given.len() && (#[trigger] m.given[k]).id == "name"@ && m.given[k].values
                == values;
        assert(given_fits(m.given[k], command));
    }
}

/// An argument is given under `id`.
pub open spec fn is_given(m: MatchesView, id: Seq<char>) -> bool {
    exists|i: int| 0 <= i < m.given.len() && (#[trigger] m.given[i]).id == id
}

/// The identifiers of the arguments of `config` are all different, and so are their flags.
pub proof fn law_config_arguments_are_distinct()
    ensures
        ({
            let args = tms_commands()[0].args;
            &&& args.len() == 8
            &&& forall|i: int, j: int|
                0 <= i < j < args.len() ==> (#[trigger] args[i]).id != (#[trigger] args[j]).id
                    && args[i].long != args[j].long && (args[i].short is Some ==> args[i].short
                    != args[j].short)
            &&& forall|i: int| 0 <= i < args.len() ==> (#[trigger] args[i]).long is Some
        }),
{
    reveal_strlit("search paths");
    reveal_strlit("default session");
    reveal_strlit("excluded dirs");
    reveal_strlit("remove dir");
    reveal_strlit("display full path");
    reveal_strlit("search submodules");
    reveal_strlit("recursive submodules");
    reveal_strlit("max depth");
    reveal_strlit("paths");
    reveal_strlit("session");
    reveal_strlit("excluded");
    reveal_strlit("remove");
    reveal_strlit("full-path");
    reveal_strlit("search-submodules");
    reveal_strlit("recursive-submodules");
    reveal_strlit("max-depth");
    let args = tms_commands()[0].args;
    assert(args[0].id.len() == 12 && args[1].id.len() == 15 && args[2].id.len() == 13
        && args[3].id.len() == 10 && args[4].id.len() == 17 && args[5].id.len() == 17
        && args[6].id.len() == 20 && args[7].id.len() == 9);
    assert(args[0].long->0.len() == 5 && args[1].long->0.len() == 7 && args[2].long->0.len() == 8
        && args[3].long->0.len() == 6 && args[4].long->0.len() == 9 && args[5].long->0.len() == 17
        && args[6].long->0.len() == 20 && args[7].long->0.len() == 9);
    assert(args[0].short == Some('p') && args[1].short == Some('s') && args[2].short is None
        && args[3].short is None && args[4].short is None && args[5].short is None && args[6].short
        is None && args[7].short == Some('d'));
    assert(args[4].id[0] == 'd' && args[5].id[0] == 's');
    assert(args[4].long->0[0] == 'f' && args[7].long->0[0] == 'm');
    assert forall|i: int, j: int| 0 <= i < j < args.len() implies (#[trigger] args[i]).id != (
    #[trigger] args[j]).id && args[i].long != args[j].long && (args[i].short is Some
        ==> args[i].short != args[j].short) by {
        assert(i == 0 || i == 1 || i == 2 || i == 3 || i == 4 || i == 5 || i == 6);
        assert(j == 1 || j == 2 || j == 3 || j == 4 || j == 5 || j == 6 || j == 7);
    }
}

/// Everything that a fitting `config` is given is read: under each identifier, there is something to
/// read if and only if it is given.
pub proof fn law_config_is_read(m: MatchesView)
    requires
        command_fits(m, tms_commands()[0]),
    ensures
        request_of(Some(m)) == RequestView::Config(config_args_of(m.given)),
        ({
            let args = config_args_of(m.given);
            &&& args.search_paths is Some <==> is_given(m, "search paths"@)
            &&& args.default_session is Some <==> is_given(m, "default session"@)
            &&& args.excluded_dirs is Some <==> is_given(m, "excluded dirs"@)
            &&& args.removed_dirs is Some <==> is_given(m, "remove dir"@)
            &&& args.display_full_path is Some <==> is_given(m, "display full path"@)
            &&& args.search_submodules is Some <==> is_given(m, "search submodules"@)
            &&& args.recursive_submodules is Some <==> is_given(m, "recursive submodules"@)
            &&& args.max_depths.len() > 0 <==> is_given(m, "max depth"@)
        }),
{
    lemma_names();
    assert(m.name == "config"@ && m.name != "start"@ && m.name != "switch"@ && m.name
        != "windows"@) by {
        let c = tms_commands();
        assert(c[0].name != c[1].name && c[0].name != c[2].name && c[0].name != c[3].name);
    }
    lemma_read(m, 0);
    lemma_read(m, 1);
    lemma_read(m, 2);
    lemma_read(m, 3);
    lemma_read(m, 4);
    lemma_read(m, 5);
    lemma_read(m, 6);
    lemma_read(m, 7);
}

/// What is read for the argument `at` of a fitting `config` fits that argument.
proof fn lemma_read(m: MatchesView, at: int)
    requires
        command_fits(m, tms_commands()[0]),
        0 <= at < 8,
    ensures
        ({
            let arg = tms_commands()[0].args[at];
            match values_of(m.given, arg.id) {
                Some(values) => is_given(m, arg.id) && values_fit(values, arg),
                None => !is_given(m, arg.id),
            }
        }),
{
    law_config_arguments_are_distinct();
    let command = tms_commands()[0];
    let arg = command.args[at];
    lemma_values_of(m.given, arg.id);
    if let Some(values) = values_of(m.given, arg.id) {
        let k = choose|k: int|
            0 <= k < m.given.len() && (#[trigger] m.given[k]).id == arg.id && m.given[k].values
                == values;
        assert(given_fits(m.given[k], command));
        let i = choose|i: int|
            0 <= i < command.args.len() && (#[trigger] command.args[i]).id == m.given[k].id
                && values_fit(m.given[k].values, command.args[i]);
        assert(i == at) by {
            if i < at {
                assert(command.args[i].id != command.args[at].id);
            }
            if at < i {
                assert(command.args[at].id != command.args[i].id);
            }
        }
    }
}

/// `split-window` takes any arguments, however many, and they are read in order.
pub proof fn law_split_window_takes_anything(args: Seq<Seq<char>>)
    ensures
        ({
            let m = MatchesView {
                name: "split-window"@,
                given: seq![GivenView { id: "args"@, values: ValuesView::Texts(args) }],
            };
            fits(m, tms_app()) && request_of(Some(m)) == RequestView::SplitWindow(args)
        }),
{
    lemma_names();
    let given = seq![GivenView { id: "args"@, values: ValuesView::Texts(args) }];
    let m = MatchesView { name: "split-window"@, given };
    let command = tms_commands()[8];
    assert(command.args[0].id == "args"@ && values_fit(given[0].values, command.args[0]));
    assert(given_fits(given[0], command));
    assert(command_fits(m, tms_app().commands[8]));
    let c = tms_commands();
    assert(c[0].name != c[8].name && c[1].name != c[8].name && c[2].name != c[8].name && c[3].name
        != c[8].name && c[4].name != c[8].name && c[5].name != c[8].name && c[6].name != c[8].name
        && c[7].name != c[8].name);
    assert(values_of(given, "args"@) == Some(given[0].values));
}

/// `config` and `rename` do not go without arguments.
pub proof fn law_bare_commands_do_not_fit(m: MatchesView)
    requires
        m.name == "config"@ || m.name == "rename"@,
        m.given.len() == 0,
    ensures
        !fits(m, tms_app()),
{
    lemma_names();
    if fits(m, tms_app()) {
        let i = choose|i: int|
            0 <= i < tms_app().commands.len() && command_fits(m, #[trigger] tms_app().commands[i]);
        let c = tms_commands();
        assert(c[i].name == m.name);
        assert(c[0].needs_args && c[6].needs_args);
        assert(i == 0 || i == 6) by {
            assert(c[0].name == "config"@ && c[6].name == "rename"@);
        }
    }
}

/// There are texts, as many as `least` or more.
pub open spec fn texts_from(values: ValuesView, least: nat) -> bool {
    values matches ValuesView::Texts(texts) && texts.len() >= least
}

/// An argument of `config` fits if and only if it fits the one that is declared under its identifier.
proof fn lemma_config_given(values: ValuesView, at: int)
    requires
        0 <= at < 8,
    ensures
        given_fits(
            GivenView { id: tms_commands()[0].args[at].id, values },
            tms_commands()[0],
        ) <==> values_fit(values, tms_commands()[0].args[at]),
{
    law_config_arguments_are_distinct();
    let command = tms_commands()[0];
    let given = GivenView { id: command.args[at].id, values };
    if given_fits(given, command) {
        let i = choose|i: int|
            0 <= i < command.args.len() && (#[trigger] command.args[i]).id == given.id
                && values_fit(given.values, command.args[i]);
        assert(i == at) by {
            if i < at {
                assert(command.args[i].id != command.args[at].id);
            }
            if at < i {
                assert(command.args[at].id != command.args[i].id);
            }
        }
    }
    if values_fit(values, command.args[at]) {
        assert(command.args[at].id == given.id);
    }
}

/// What the options of `config` take: as many paths, excluded directories, directories to be removed
/// and depths as are wanted, but at least one; one default session; and one `true` or `false` for each
/// of the others.
pub proof fn law_what_config_takes(values: ValuesView)
    ensures
        ({
            let takes = |id: Seq<char>| given_fits(GivenView { id, values }, tms_commands()[0]);
            let one_flag = values matches ValuesView::Flags(flags) && flags.len() == 1;
            &&& takes("search paths"@) <==> texts_from(values, 1)
            &&& takes("excluded dirs"@) <==> texts_from(values, 1)
            &&& takes("remove dir"@) <==> texts_from(values, 1)
            &&& takes("default session"@) <==> (values matches ValuesView::Texts(texts)
                && texts.len() == 1)
            &&& takes("max depth"@) <==> (values matches ValuesView::Numbers(depths)
                && depths.len() >= 1)
            &&& takes("display full path"@) <==> one_flag
            &&& takes("search submodules"@) <==> one_flag
            &&& takes("recursive submodules"@) <==> one_flag
        }),
{
    lemma_config_given(values, 0);
    lemma_config_given(values, 1);
    lemma_config_given(values, 2);
    lemma_config_given(values, 3);
    lemma_config_given(values, 4);
    lemma_config_given(values, 5);
    lemma_config_given(values, 6);
    lemma_config_given(values, 7);
}

/// Under which flags the options of `config` are given.
pub proof fn law_flags_of_config()
    ensures
        ({
            let args = tms_commands()[0].args;
            &&& args.len() == 8
            &&& args[0].id == "search paths"@ && args[0].long == Some("paths"@) && args[0].short
                == Some('p')
            &&& args[1].id == "default session"@ && args[1].long == Some("session"@)
                && args[1].short == Some('s')
            &&& args[2].id == "excluded dirs"@ && args[2].long == Some("excluded"@)
                && args[2].short is None
            &&& args[3].id == "remove dir"@ && args[3].long == Some("remove"@) && args[3].short
                is None
            &&& args[4].id == "display full path"@ && args[4].long == Some("full-path"@)
                && args[4].short is None
            &&& args[5].id == "search submodules"@ && args[5].long == Some("search-submodules"@)
                && args[5].short is None
            &&& args[6].id == "recursive submodules"@ && args[6].long == Some(
                "recursive-submodules"@,
            ) && args[6].short is None
            &&& args[7].id == "max depth"@ && args[7].long == Some("max-depth"@) && args[7].short
                == Some('d')
            &&& forall|i: int|
                0 <= i < args.len() ==> !(#[trigger] args[i]).required && !args[i].free_form
        }),
{
}

/// `rename` takes one name and has to be given it, `refresh` takes one or none, `split-window` takes
/// whatever follows, and the others but `config` take nothing.
pub proof fn law_what_the_others_take()
    ensures
        ({
            let c = tms_commands();
            &&& c.len() == 9
            &&& forall|i: int| 1 <= i <= 5 ==> (#[trigger] c[i]).args.len() == 0
            &&& c[6].args.len() == 1 && c[6].args[0].id == "name"@ && c[6].args[0].required
                && c[6].args[0].min_values == 1 && c[6].args[0].max_values == Some(1usize)
            &&& c[7].args.len() == 1 && c[7].args[0].id == "name"@ && !c[7].args[0].required
                && c[7].args[0].min_values == 1 && c[7].args[0].max_values == Some(1usize)
            &&& c[8].args.len() == 1 && c[8].args[0].id == "args"@ && !c[8].args[0].required
                && c[8].args[0].free_form && c[8].args[0].max_values is None
            &&& forall|i: int|
                6 <= i <= 8 ==> (#[trigger] c[i]).args[0].long is None && c[i].args[0].short is None
                    && c[i].args[0].kind == ValueKind::Text
            &&& forall|i: int|
                0 <= i < 9 ==> ((#[trigger] c[i]).needs_args <==> i == 0 || i == 6) && (
                c[i].help_flag <==> i != 8) && c[i].alias == if i == 8 {
                    Some("splitw"@)
                } else {
                    None
                }
        }),
{
}

} // verus!
