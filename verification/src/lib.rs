//! The command line of `tms`, a manager of `tmux` sessions: what it accepts, and what each of its
//! subcommands does.
//!
//! The library decides and its caller acts. [`grammar::create_app`] declares the command line. For a
//! parsed one, the configuration and the environment, [`handle::handle_sub_commands`] gives the first
//! step of a run: effects to carry out in order, and then either a question or the outcome.
//! [`handle::resume`] turns the answer to a question into the next step. What every step is, is stated
//! exactly in the module of the subcommand; what holds of whole runs is stated in the modules of laws.

pub mod config;
pub mod config_laws;
pub mod configure;
pub mod expansion;
pub mod expansion_laws;
pub mod grammar;
pub mod grammar_laws;
pub mod handle;
pub mod kill;
pub mod laws;
pub mod list;
pub mod output_laws;
pub mod outside;
pub mod pick;
pub mod pick_laws;
pub mod protocol;
pub mod refresh;
pub mod refresh_laws;
pub mod rename;
pub mod rename_laws;
pub mod request;
pub mod request_laws;
pub mod session_laws;
pub mod split_laws;
pub mod split_window;
pub mod start;
pub mod start_laws;
pub mod text;
pub mod text_laws;
