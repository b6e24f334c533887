//! The configuration: what the commands read from it and what they change in it.

use crate::text::views;
use std::path::PathBuf;
use vstd::prelude::*;

verus! {

/// Declares `std::path::PathBuf`. A path is carried from the file system to the configuration and
/// never looked into.
#[verifier::external_type_specification]
#[verifier::external_body]
pub struct ExPathBuf(PathBuf);

/// A directory that is searched for repositories, and how deep.
pub struct SearchDirectory {
    pub path: PathBuf,
    pub depth: usize,
}

impl SearchDirectory {
    /// The directory `path`, searched to `depth`.
    pub fn new(path: PathBuf, depth: usize) -> (r: SearchDirectory)
        ensures
            r.path == path,
            r.depth == depth,
    {
        SearchDirectory { path, depth }
    }
}

/// A window of a default session.
pub struct Window {
    pub name: Option<String>,
    pub path: Option<String>,
    pub command: Option<String>,
}

/// A default session.
pub struct Session {
    pub name: Option<String>,
    pub path: Option<String>,
    pub windows: Option<Vec<Window>>,
}

/// The configuration.
pub struct Config {
    pub sessions: Option<Vec<Session>>,
    pub search_dirs: Option<Vec<SearchDirectory>>,
    pub default_session: Option<String>,
    pub display_full_path: Option<bool>,
    pub search_submodules: Option<bool>,
    pub recursive_submodules: Option<bool>,
    pub excluded_dirs: Option<Vec<String>>,
}

pub struct WindowView {
    pub name: Option<Seq<char>>,
    pub path: Option<Seq<char>>,
    pub command: Option<Seq<char>>,
}

pub struct SessionView {
    pub name: Option<Seq<char>>,
    pub path: Option<Seq<char>>,
    pub windows: Option<Seq<WindowView>>,
}

#[verifier::ext_equal]
pub struct ConfigView {
    pub sessions: Option<Seq<SessionView>>,
    pub search_dirs: Option<Seq<SearchDirectory>>,
    pub default_session: Option<Seq<char>>,
    pub display_full_path: Option<bool>,
    pub search_submodules: Option<bool>,
    pub recursive_submodules: Option<bool>,
    pub excluded_dirs: Option<Seq<Seq<char>>>,
}

/// The view of an optional string.
pub open spec fn opt_view(s: Option<String>) -> Option<Seq<char>> {
    match s {
        Some(s) => Some(s@),
        None => None,
    }
}

/// The view of an optional list of strings.
pub open spec fn opt_views(v: Option<Vec<String>>) -> Option<Seq<Seq<char>>> {
    match v {
        Some(v) => Some(views(v@)),
        None => None,
    }
}

impl View for Window {
    type V = WindowView;

    open spec fn view(&self) -> WindowView {
        WindowView {
            name: opt_view(self.name),
            path: opt_view(self.path),
            command: opt_view(self.command),
        }
    }
}

/// The views of a list of windows.
pub open spec fn window_views(windows: Seq<Window>) -> Seq<WindowView> {
    windows.map_values(|w: Window| w@)
}

impl View for Session {
    type V = SessionView;

    open spec fn view(&self) -> SessionView {
        SessionView {
            name: opt_view(self.name),
            path: opt_view(self.path),
            windows: match self.windows {
                Some(windows) => Some(window_views(windows@)),
                None => None,
            },
        }
    }
}

/// The views of a list of sessions.
pub open spec fn session_views(sessions: Seq<Session>) -> Seq<SessionView> {
    sessions.map_values(|s: Session| s@)
}

impl View for Config {
    type V = ConfigView;

    open spec fn view(&self) -> ConfigView {
        ConfigView {
            sessions: match self.sessions {
                Some(sessions) => Some(session_views(sessions@)),
                None => None,
            },
            search_dirs: match self.search_dirs {
                Some(dirs) => Some(dirs@),
                None => None,
            },
            default_session: opt_view(self.default_session),
            display_full_path: self.display_full_path,
            search_submodules: self.search_submodules,
            recursive_submodules: self.recursive_submodules,
            excluded_dirs: opt_views(self.excluded_dirs),
        }
    }
}

} // verus!
