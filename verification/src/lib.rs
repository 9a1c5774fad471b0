//! Conveniently automate tasks using shell scripts.
//!
//! Scripts are invoked by name and looked up in a prioritized list of
//! directories: those of the repository one is in, then the user's, then
//! the system's.
//!
//! The library decides; it does not touch the filesystem or spawn anything.
//! A caller
//!
//! 1. asks [`directories_iter`] for the directories to search,
//! 2. lists them, one [`DirListing`] per directory, and
//! 3. hands the listings to [`find_script`] or [`all_scripts`], or one at a
//!    time to [`search_step`] to stop reading as soon as the search is over.
//!
//! To run a script, [`resolve`] turns what the search gave into the file to
//! spawn, [`conclude`] turns what spawning and waiting gave into the outcome
//! of the run, and [`exit_code`] turns that outcome into the exit code to
//! report.
//!
//! Every function states what it returns over a mathematical model of its
//! arguments; the laws that follow from those statements are proved in
//! [`scripts::laws`], [`path`], [`run`] and [`names`].

pub mod config;
pub mod listing;
pub mod names;
pub mod path;
pub mod run;
pub mod scripts;

pub use config::Config;
pub use listing::{DirEntry, DirItem, DirListing, FailureKind, IoFailure};
pub use path::{directories_in, directories_iter, extend_home, extend_home_in, git_root};
pub use run::{conclude, exit_code, resolve, status_exit_code, RunError, RunOutcome, Termination};
pub use scripts::{all_scripts, find_script, script_exists, search_dir, search_step, SearchStep};
