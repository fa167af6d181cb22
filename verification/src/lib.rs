//! Maintainer utilities for the 2 package manager's port trees.
//!
//! A port lives in `/usr/ports/REPO/NAME` (staged in `/var/ports`), with a
//! `BUILD` shell file that sets its variables.  This library holds what the
//! maintainer tools decide and write, each function stated and verified:
//!
//! - `text`: trimming, splitting, lines and words of strings;
//! - `maintarg`: the `REPO/NAME[=VERS]` arguments;
//! - `package`: a package read from its `BUILD`, and its source URLs;
//! - `hash`: the URL-safe SHA-256 hash recorded for each source file;
//! - `paths`: joining, comparing and quoting paths;
//! - `dl`: where each source is saved, and tarball names;
//! - `commands`: the texts of the shell commands and files written;
//! - `logic`: the operations (add, generate, revise, update, view, remove,
//!   move, copy, alias, restore, new repository);
//! - `cli`: the parsed command line.
pub mod text;
pub mod maintarg;
pub mod hash;
pub mod paths;
pub mod package;
pub mod dl;
pub mod commands;
pub mod logic;
pub mod cli;
