//! What the user asked for: the parsed command line as plain values, and the request it stands for.

use crate::config::{opt_view, opt_views};
use crate::text::{same_text, views};
use vstd::prelude::*;

verus! {

/// The values that were given for one argument.
pub enum Values {
    Texts(Vec<String>),
    Numbers(Vec<usize>),
    Flags(Vec<bool>),
}

/// An argument that was given, under the identifier it is declared with.
pub struct Given {
    pub id: String,
    pub values: Values,
}

/// The subcommand that was given, with its arguments.
pub struct Matches {
    pub name: String,
    pub given: Vec<Given>,
}

pub enum ValuesView {
    Texts(Seq<Seq<char>>),
    Numbers(Seq<usize>),
    Flags(Seq<bool>),
}

pub struct GivenView {
    pub id: Seq<char>,
    pub values: ValuesView,
}

pub struct MatchesView {
    pub name: Seq<char>,
    pub given: Seq<GivenView>,
}

impl View for Values {
    type V = ValuesView;

    open spec fn view(&self) -> ValuesView {
        match self {
            Values::Texts(v) => ValuesView::Texts(views(v@)),
            Values::Numbers(v) => ValuesView::Numbers(v@),
            Values::Flags(v) => ValuesView::Flags(v@),
        }
    }
}

impl View for Given {
    type V = GivenView;

    open spec fn view(&self) -> GivenView {
        GivenView { id: self.id@, values: self.values@ }
    }
}

/// The views of a list of arguments.
pub open spec fn given_views(given: Seq<Given>) -> Seq<GivenView> {
    given.map_values(|g: Given| g@)
}

impl View for Matches {
    type V = MatchesView;

    open spec fn view(&self) -> MatchesView {
        MatchesView { name: self.name@, given: given_views(self.given@) }
    }
}

/// The arguments of the `config` subcommand.
pub struct ConfigArgs {
    pub max_depths: Vec<usize>,
    pub search_paths: Option<Vec<String>>,
    pub default_session: Option<String>,
    pub display_full_path: Option<bool>,
    pub search_submodules: Option<bool>,
    pub recursive_submodules: Option<bool>,
    pub excluded_dirs: Option<Vec<String>>,
    pub removed_dirs: Option<Vec<String>>,
}

pub struct ConfigArgsView {
    pub max_depths: Seq<usize>,
    pub search_paths: Option<Seq<Seq<char>>>,
    pub default_session: Option<Seq<char>>,
    pub display_full_path: Option<bool>,
    pub search_submodules: Option<bool>,
    pub recursive_submodules: Option<bool>,
    pub excluded_dirs: Option<Seq<Seq<char>>>,
    pub removed_dirs: Option<Seq<Seq<char>>>,
}

impl View for ConfigArgs {
    type V = ConfigArgsView;

    open spec fn view(&self) -> ConfigArgsView {
        ConfigArgsView {
            max_depths: self.max_depths@,
            search_paths: opt_views(self.search_paths),
            default_session: opt_view(self.default_session),
            display_full_path: self.display_full_path,
            search_submodules: self.search_submodules,
            recursive_submodules: self.recursive_submodules,
            excluded_dirs: opt_views(self.excluded_dirs),
            removed_dirs: opt_views(self.removed_dirs),
        }
    }
}

/// What one run of the program is to do.
pub enum Request {
    Start,
    Switch,
    Windows,
    Config(ConfigArgs),
    Kill,
    Sessions,
    Rename(String),
    Refresh(Option<String>),
    SplitWindow(Vec<String>),
    /// No subcommand that is handled here.
    Other,
}

pub enum RequestView {
    Start,
    Switch,
    Windows,
    Config(ConfigArgsView),
    Kill,
    Sessions,
    Rename(Seq<char>),
    Refresh(Option<Seq<char>>),
    SplitWindow(Seq<Seq<char>>),
    Other,
}

impl View for Request {
    type V = RequestView;

    open spec fn view(&self) -> RequestView {
        match self {
            Request::Start => RequestView::Start,
            Request::Switch => RequestView::Switch,
            Request::Windows => RequestView::Windows,
            Request::Config(args) => RequestView::Config(args@),
            Request::Kill => RequestView::Kill,
            Request::Sessions => RequestView::Sessions,
            Request::Rename(name) => RequestView::Rename(name@),
            Request::Refresh(name) => RequestView::Refresh(opt_view(*name)),
            Request::SplitWindow(args) => RequestView::SplitWindow(views(args@)),
            Request::Other => RequestView::Other,
        }
    }
}

/// The values given for the argument `id`.
pub open spec fn values_of(given: Seq<GivenView>, id: Seq<char>) -> Option<ValuesView>
    decreases given.len(),
{
    if given.len() == 0 {
        None
    } else if given.first().id == id {
        Some(given.first().values)
    } else {
        values_of(given.drop_first(), id)
    }
}

/// The texts given for the argument `id`.
pub open spec fn texts_of(given: Seq<GivenView>, id: Seq<char>) -> Option<Seq<Seq<char>>> {
    match values_of(given, id) {
        Some(ValuesView::Texts(v)) => Some(v),
        _ => None,
    }
}

/// The first text given for the argument `id`.
pub open spec fn text_of(given: Seq<GivenView>, id: Seq<char>) -> Option<Seq<char>> {
    match texts_of(given, id) {
        Some(v) => if v.len() > 0 {
            Some(v[0])
        } else {
            None
        },
        None => None,
    }
}

/// The numbers given for the argument `id`; none if it was not given.
pub open spec fn numbers_of(given: Seq<GivenView>, id: Seq<char>) -> Seq<usize> {
    match values_of(given, id) {
        Some(ValuesView::Numbers(v)) => v,
        _ => Seq::<usize>::empty(),
    }
}

/// The first flag given for the argument `id`.
pub open spec fn flag_of(given: Seq<GivenView>, id: Seq<char>) -> Option<bool> {
    match values_of(given, id) {
        Some(ValuesView::Flags(v)) => if v.len() > 0 {
            Some(v[0])
        } else {
            None
        },
        _ => None,
    }
}

/// The arguments of the `config` subcommand among `given`.
pub open spec fn config_args_of(given: Seq<GivenView>) -> ConfigArgsView {
    ConfigArgsView {
        max_depths: numbers_of(given, "max depth"@),
        search_paths: texts_of(given, "search paths"@),
        default_session: text_of(given, "default session"@),
        display_full_path: flag_of(given, "display full path"@),
        search_submodules: flag_of(given, "search submodules"@),
        recursive_submodules: flag_of(given, "recursive submodules"@),
        excluded_dirs: texts_of(given, "excluded dirs"@),
        removed_dirs: texts_of(given, "remove dir"@),
    }
}

/// The request that a parsed command line stands for.
pub open spec fn request_of(matches: Option<MatchesView>) -> RequestView {
    match matches {
        None => RequestView::Other,
        Some(m) => if m.name == "start"@ {
            RequestView::Start
        } else if m.name == "switch"@ {
            RequestView::Switch
        } else if m.name == "windows"@ {
            RequestView::Windows
        } else if m.name == "config"@ {
            RequestView::Config(config_args_of(m.given))
        } else if m.name == "kill"@ {
            RequestView::Kill
        } else if m.name == "sessions"@ {
            RequestView::Sessions
        } else if m.name == "rename"@ {
            RequestView::Rename(text_of(m.given, "name"@)->0)
        } else if m.name == "refresh"@ {
            RequestView::Refresh(text_of(m.given, "name"@))
        } else if m.name == "split-window"@ {
            RequestView::SplitWindow(
                match texts_of(m.given, "args"@) {
                    Some(args) => args,
                    None => Seq::<Seq<char>>::empty(),
                },
            )
        } else {
            RequestView::Other
        },
    }
}

/// `rename` has to be given a name.
pub open spec fn complete(matches: Option<MatchesView>) -> bool {
    matches matches Some(m) ==> m.name == "rename"@ ==> text_of(m.given, "name"@) is Some
}

/// The view of an optional subcommand.
pub open spec fn opt_matches_view(matches: Option<Matches>) -> Option<MatchesView> {
    match matches {
        Some(m) => Some(m@),
        None => None,
    }
}

/// The values given for the argument `id`.
fn find<'a>(given: &'a Vec<Given>, id: &str) -> (r: Option<&'a Values>)
    ensures
        match r {
            Some(v) => values_of(given_views(given@), id@) == Some(v@),
            None => values_of(given_views(given@), id@) is None,
        },
{
    let mut i: usize = 0;
    assert(given_views(given@).skip(0) =~= given_views(given@));
    while i < given.len()
        invariant
            i <= given.len(),
            values_of(given_views(given@).skip(i as int), id@) == values_of(
                given_views(given@),
                id@,
            ),
        decreases given.len() - i,
    {
        assert(given_views(given@).skip(i as int).first() == given@[i as int]@);
        assert(given_views(given@).skip(i as int).drop_first() =~= given_views(given@).skip(i + 1));
        if same_text(given[i].id.as_str(), id) {
            return Some(&given[i].values);
        }
        i += 1;
    }
    None
}

/// A copy of a list of strings.
pub fn copy_strings(v: &Vec<String>) -> (r: Vec<String>)
    ensures
        views(r@) == views(v@),
{
    let mut out: Vec<String> = Vec::new();
    let mut i: usize = 0;
    while i < v.len()
        invariant
            i <= v.len(),
            views(out@) == views(v@).take(i as int),
        decreases v.len() - i,
    {
        let ghost before = views(out@);
        out.push(v[i].clone());
        assert(views(out@) =~= before.push(v@[i as int]@));
        i += 1;
    }
    assert(views(v@).take(i as int) =~= views(v@));
    out
}

/// The texts given for the argument `id`.
fn texts(given: &Vec<Given>, id: &str) -> (r: Option<Vec<String>>)
    ensures
        opt_views(r) == texts_of(given_views(given@), id@),
{
    match find(given, id) {
        Some(Values::Texts(v)) => Some(copy_strings(v)),
        _ => None,
    }
}

/// The first text given for the argument `id`.
fn text(given: &Vec<Given>, id: &str) -> (r: Option<String>)
    ensures
        opt_view(r) == text_of(given_views(given@), id@),
{
    match find(given, id) {
        Some(Values::Texts(v)) => {
            assert(views(v@).len() == v@.len());
            if v.len() > 0 {
                Some(v[0].clone())
            } else {
                None
            }
        },
        _ => None,
    }
}

/// The numbers given for the argument `id`.
fn numbers(given: &Vec<Given>, id: &str) -> (r: Vec<usize>)
    ensures
        r@ == numbers_of(given_views(given@), id@),
{
    let mut out: Vec<usize> = Vec::new();
    if let Some(Values::Numbers(v)) = find(given, id) {
        let mut i: usize = 0;
        while i < v.len()
            invariant
                i <= v.len(),
                out@ == v@.take(i as int),
            decreases v.len() - i,
        {
            out.push(v[i]);
            i += 1;
        }
        assert(v@.take(i as int) =~= v@);
    }
    out
}

/// The first flag given for the argument `id`.
fn flag(given: &Vec<Given>, id: &str) -> (r: Option<bool>)
    ensures
        r == flag_of(given_views(given@), id@),
{
    match find(given, id) {
        Some(Values::Flags(v)) => {
            if v.len() > 0 {
                Some(v[0])
            } else {
                None
            }
        },
        _ => None,
    }
}

/// The arguments of the `config` subcommand among `given`.
fn config_args(given: &Vec<Given>) -> (r: ConfigArgs)
    ensures
        r@ == config_args_of(given_views(given@)),
{
    ConfigArgs {
        max_depths: numbers(given, "max depth"),
        search_paths: texts(given, "search paths"),
        default_session: text(given, "default session"),
        display_full_path: flag(given, "display full path"),
        search_submodules: flag(given, "search submodules"),
        recursive_submodules: flag(given, "recursive submodules"),
        excluded_dirs: texts(given, "excluded dirs"),
        removed_dirs: texts(given, "remove dir"),
    }
}

/// Whether `rename`, if it is what was given, was given a name.
pub fn is_complete(matches: &Option<Matches>) -> (r: bool)
    ensures
        r == complete(opt_matches_view(*matches)),
{
    match matches {
        None => true,
        Some(m) => !same_text(m.name.as_str(), "rename") || text(&m.given, "name").is_some(),
    }
}

/// The request that a parsed command line stands for.
pub fn read_request(matches: &Option<Matches>) -> (r: Request)
    requires
        complete(opt_matches_view(*matches)),
    ensures
        r@ == request_of(opt_matches_view(*matches)),
{
    match matches {
        None => Request::Other,
        Some(m) => {
            let name = m.name.as_str();
            let given = &m.given;
            if same_text(name, "start") {
                Request::Start
            } else if same_text(name, "switch") {
                Request::Switch
            } else if same_text(name, "windows") {
                Request::Windows
            } else if same_text(name, "config") {
                Request::Config(config_args(given))
            } else if same_text(name, "kill") {
                Request::Kill
            } else if same_text(name, "sessions") {
                Request::Sessions
            } else if same_text(name, "rename") {
                let new_name = text(given, "name");
                Request::Rename(new_name.unwrap())
            } else if same_text(name, "refresh") {
                Request::Refresh(text(given, "name"))
            } else if same_text(name, "split-window") {
                match texts(given, "args") {
                    Some(args) => Request::SplitWindow(args),
                    None => {
                        let none: Vec<String> = Vec::new();
                        assert(views(none@) =~= Seq::<Seq<char>>::empty());
                        Request::SplitWindow(none)
                    },
                }
            } else {
                Request::Other
            }
        },
    }
}

} // verus!
