//! When a directory is the root of a virtual environment.
//!
//! A directory counts as one when it holds the platform's program directory
//! and, in it, the interpreter as a regular file. The activation script is
//! named beside the interpreter; nobody looks whether it is there.

use vstd::prelude::*;
use crate::path::{join, spec_join};
use crate::platform::Platform;

verus! {

/// The program directory of the environment rooted at `dir`.
pub open spec fn bin_dir_of(platform: Platform, dir: Seq<char>) -> Seq<char> {
    spec_join(platform, dir, platform.spec_bin_dir())
}

/// The interpreter of the environment rooted at `dir`.
pub open spec fn interpreter_of(platform: Platform, dir: Seq<char>) -> Seq<char> {
    spec_join(platform, bin_dir_of(platform, dir), platform.spec_interpreter())
}

/// The activation script of the environment rooted at `dir`.
pub open spec fn activate_of(platform: Platform, dir: Seq<char>) -> Seq<char> {
    spec_join(platform, bin_dir_of(platform, dir), platform.spec_activate())
}

/// Builds [`bin_dir_of`].
pub fn bin_dir_path(platform: Platform, dir: &str) -> (path: String)
    ensures
        path@ == bin_dir_of(platform, dir@),
{
    join(platform, dir, platform.bin_dir())
}

/// Builds [`interpreter_of`].
pub fn interpreter_path(platform: Platform, dir: &str) -> (path: String)
    ensures
        path@ == interpreter_of(platform, dir@),
{
    let bin = bin_dir_path(platform, dir);
    join(platform, bin.as_str(), platform.interpreter())
}

/// Builds [`activate_of`].
pub fn activate_path(platform: Platform, dir: &str) -> (path: String)
    ensures
        path@ == activate_of(platform, dir@),
{
    let bin = bin_dir_path(platform, dir);
    join(platform, bin.as_str(), platform.activate())
}

/// What the disk says of one candidate directory.
#[derive(Clone, Copy, Debug, PartialEq, Eq, Structural)]
pub struct Probe {
    /// The candidate is a directory.
    pub is_dir: bool,
    /// Its program directory ([`bin_dir_of`]) is a directory.
    pub has_bin_dir: bool,
    /// Its interpreter ([`interpreter_of`]) is a regular file.
    pub has_interpreter: bool,
}

impl Probe {
    /// All three hold. Each later answer matters only where the earlier ones
    /// hold, so a caller may stop looking at the first that fails and report
    /// the rest as `false`.
    pub open spec fn is_environment(self) -> bool {
        self.is_dir && self.has_bin_dir && self.has_interpreter
    }
}

/// The activation script that is reported for `dir` under `probe`, if any.
pub open spec fn detect(platform: Platform, dir: Seq<char>, probe: Probe) -> Option<Seq<char>> {
    if probe.is_environment() {
        Some(activate_of(platform, dir))
    } else {
        None
    }
}

/// Is there a virtual environment in `dir`? If so, returns the path of its
/// activation script.
pub fn get_virtual_env(platform: Platform, dir: &str, probe: Probe) -> (found: Option<String>)
    ensures
        found is Some <==> probe.is_environment(),
        found matches Some(path) ==> detect(platform, dir@, probe) == Some(path@),
{
    if !probe.is_dir {
        return None;
    }
    if !probe.has_bin_dir {
        return None;
    }
    if !probe.has_interpreter {
        return None;
    }
    Some(activate_path(platform, dir))
}

} // verus!
