//! The command-line arguments, as parsed.
use vstd::prelude::*;

verus! {

/// What the maintainer asked for on the command line.  Each list holds the
/// `REPO/NAME` (or `REPO/NAME=VERS`) arguments of one flag; `alias`, `mv`
/// and `cp` take two (origin and destination), `restore` a package and a
/// commit.
#[derive(Debug, Clone, Default)]
pub struct Args {
    pub generate: Vec<String>,
    pub add: Vec<String>,
    pub alias: Vec<String>,
    pub revise: Vec<String>,
    pub update: Vec<String>,
    pub remove: Vec<String>,
    pub mv: Vec<String>,
    pub cp: Vec<String>,
    pub view: Vec<String>,
    pub restore: Vec<String>,
}

} // verus!
