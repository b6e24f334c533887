//! Laws of what is read from a parsed command line, and of when it can be handled.

use crate::config::ConfigView;
use crate::configure::can_remove;
use crate::handle::ready;
use crate::request::{
    config_args_of, request_of, values_of, ConfigArgsView, GivenView, MatchesView, RequestView,
    ValuesView,
};
use vstd::prelude::*;

verus! {

/// The values read for an argument are those given first under its identifier; none where it is not
/// given.
pub proof fn law_first_given_counts(given: Seq<GivenView>, id: Seq<char>, at: int)
    requires
        0 <= at <= given.len(),
        forall|i: int| 0 <= i < at ==> (#[trigger] given[i]).id != id,
        at < given.len() ==> given[at].id == id,
    ensures
        values_of(given, id) == if at == given.len() {
            None
        } else {
            Some(given[at].values)
        },
    decreases given.len(),
{
    if at > 0 {
        let rest = given.drop_first();
        assert(given[0].id != id);
        assert(forall|i: int| 0 <= i < rest.len() ==> #[trigger] rest[i] == given[i + 1]);
        law_first_given_counts(rest, id, at - 1);
    }
}

/// The arguments of `config` are read under their identifiers: all paths, depths and directories in
/// order, and the first session and flags.
pub proof fn law_config_values(
    given: Seq<GivenView>,
    texts: Seq<Seq<char>>,
    numbers: Seq<usize>,
    flag: bool,
)
    requires
        texts.len() > 0,
    ensures
        ({
            let args = config_args_of(given);
            let t = Some(ValuesView::Texts(texts));
            let f = Some(ValuesView::Flags(seq![flag]));
            &&& values_of(given, "search paths"@) == t ==> args.search_paths == Some(texts)
            &&& values_of(given, "excluded dirs"@) == t ==> args.excluded_dirs == Some(texts)
            &&& values_of(given, "remove dir"@) == t ==> args.removed_dirs == Some(texts)
            &&& values_of(given, "default session"@) == t ==> args.default_session == Some(texts[0])
            &&& values_of(given, "max depth"@) == Some(ValuesView::Numbers(numbers))
                ==> args.max_depths == numbers
            &&& values_of(given, "display full path"@) == f ==> args.display_full_path == Some(flag)
            &&& values_of(given, "search submodules"@) == f ==> args.search_submodules == Some(flag)
            &&& values_of(given, "recursive submodules"@) == f ==> args.recursive_submodules
                == Some(flag)
        }),
{
}

/// Arguments of `config` that are not given are not read.
pub proof fn law_config_values_not_given(given: Seq<GivenView>)
    ensures
        ({
            let args = config_args_of(given);
            &&& values_of(given, "search paths"@) is None ==> args.search_paths is None
            &&& values_of(given, "excluded dirs"@) is None ==> args.excluded_dirs is None
            &&& values_of(given, "remove dir"@) is None ==> args.removed_dirs is None
            &&& values_of(given, "default session"@) is None ==> args.default_session is None
            &&& values_of(given, "max depth"@) is None ==> args.max_depths.len() == 0
            &&& values_of(given, "display full path"@) is None ==> args.display_full_path is None
            &&& values_of(given, "search submodules"@) is None ==> args.search_submodules is None
            &&& values_of(given, "recursive submodules"@) is None ==> args.recursive_submodules
                is None
        }),
{
}

/// Which request a subcommand is. No other name is one, and neither is none.
pub proof fn law_requests(given: Seq<GivenView>, texts: Seq<Seq<char>>, name: Seq<char>)
    requires
        texts.len() > 0,
    ensures
        ({
            let of = |name: Seq<char>| request_of(Some(MatchesView { name, given }));
            let t = Some(ValuesView::Texts(texts));
            &&& request_of(None) == RequestView::Other
            &&& of("start"@) == RequestView::Start
            &&& of("switch"@) == RequestView::Switch
            &&& of("windows"@) == RequestView::Windows
            &&& of("config"@) == RequestView::Config(config_args_of(given))
            &&& of("kill"@) == RequestView::Kill
            &&& of("sessions"@) == RequestView::Sessions
            &&& values_of(given, "name"@) == t ==> of("rename"@) == RequestView::Rename(texts[0])
            &&& values_of(given, "name"@) == t ==> of("refresh"@) == RequestView::Refresh(
                Some(texts[0]),
            )
            &&& values_of(given, "name"@) is None ==> of("refresh"@) == RequestView::Refresh(None)
            &&& values_of(given, "args"@) == t ==> of("split-window"@) == RequestView::SplitWindow(
                texts,
            )
            &&& values_of(given, "args"@) is None ==> of("split-window"@)
                == RequestView::SplitWindow(Seq::<Seq<char>>::empty())
        }),
{
    lemma_names();
}

/// The names of the subcommands are all different.
proof fn lemma_names()
    ensures
        "start"@ != "switch"@,
        "start"@ != "windows"@,
        "start"@ != "config"@,
        "start"@ != "kill"@,
        "start"@ != "sessions"@,
        "start"@ != "rename"@,
        "start"@ != "refresh"@,
        "start"@ != "split-window"@,
        "switch"@ != "windows"@,
        "switch"@ != "config"@,
        "switch"@ != "kill"@,
        "switch"@ != "sessions"@,
        "switch"@ != "rename"@,
        "switch"@ != "refresh"@,
        "switch"@ != "split-window"@,
        "windows"@ != "config"@,
        "windows"@ != "kill"@,
        "windows"@ != "sessions"@,
        "windows"@ != "rename"@,
        "windows"@ != "refresh"@,
        "windows"@ != "split-window"@,
        "config"@ != "kill"@,
        "config"@ != "sessions"@,
        "config"@ != "rename"@,
        "config"@ != "refresh"@,
        "config"@ != "split-window"@,
        "kill"@ != "sessions"@,
        "kill"@ != "rename"@,
        "kill"@ != "refresh"@,
        "kill"@ != "split-window"@,
        "sessions"@ != "rename"@,
        "sessions"@ != "refresh"@,
        "sessions"@ != "split-window"@,
        "rename"@ != "refresh"@,
        "rename"@ != "split-window"@,
        "refresh"@ != "split-window"@,
{
    reveal_strlit("config");
    reveal_strlit("start");
    reveal_strlit("switch");
    reveal_strlit("windows");
    reveal_strlit("kill");
    reveal_strlit("sessions");
    reveal_strlit("rename");
    reveal_strlit("refresh");
    reveal_strlit("split-window");
    assert("config"@[0] == 'c' && "start"@[1] == 't' && "switch"@[0] == 's' && "switch"@[1] == 'w'
        && "windows"@[0] == 'w' && "kill"@[0] == 'k' && "sessions"@[1] == 'e' && "rename"@[0] == 'r'
        && "rename"@[2] == 'n' && "refresh"@[0] == 'r' && "refresh"@[2] == 'f'
        && "split-window"@[1] == 'p');
}

/// Every command line can be handled but two: `rename` without a name, and `config` that is to remove
/// directories at once where none are excluded and none are added.
pub proof fn law_what_can_be_handled(
    name: Seq<char>,
    given: Seq<GivenView>,
    config: ConfigView,
    texts: Seq<Seq<char>>,
)
    ensures
        ({
            let m = Some(MatchesView { name, given });
            &&& ready(m, None)
            &&& ready(None, Some(config))
            &&& name != "rename"@ && name != "config"@ ==> ready(m, Some(config))
            &&& name == "rename"@ && texts.len() > 0 && values_of(given, "name"@) == Some(
                ValuesView::Texts(texts),
            ) ==> ready(m, Some(config))
            &&& name == "rename"@ && values_of(given, "name"@) is None ==> !ready(m, Some(config))
            &&& name == "config"@ ==> ({
                let args = config_args_of(given);
                let later = args.search_paths is Some && args.search_paths->0.len() > 0;
                ready(m, Some(config)) <==> later || args.removed_dirs is None
                    || args.excluded_dirs is Some || config.excluded_dirs is Some
            })
        }),
{
    lemma_names();
}

/// Directories can be removed where some are excluded or added, or where none are to be removed.
pub proof fn law_what_can_be_removed(config: ConfigView, args: ConfigArgsView)
    ensures
        can_remove(config, args) <==> args.removed_dirs is None || args.excluded_dirs is Some
            || config.excluded_dirs is Some,
{
}

} // verus!
