//! The two layouts of a virtual environment.

use vstd::prelude::*;

verus! {

/// The family of the target, which decides the names inside an environment
/// and the separator between the parts of a path.
#[derive(Clone, Copy, Debug, PartialEq, Eq, Structural)]
pub enum Platform {
    /// The Windows family.
    Windows,
    /// Every other target.
    Other,
}

impl Platform {
    /// The name of the directory that holds an environment's programs.
    pub open spec fn spec_bin_dir(self) -> Seq<char> {
        match self {
            Platform::Windows => "Scripts"@,
            Platform::Other => "bin"@,
        }
    }

    /// The name of the interpreter inside that directory.
    pub open spec fn spec_interpreter(self) -> Seq<char> {
        match self {
            Platform::Windows => "python.exe"@,
            Platform::Other => "python"@,
        }
    }

    /// The name of the activation script inside that directory.
    pub open spec fn spec_activate(self) -> Seq<char> {
        "activate"@
    }

    /// The character written between two parts of a path.
    pub open spec fn spec_separator(self) -> char {
        match self {
            Platform::Windows => '\\',
            Platform::Other => '/',
        }
    }

    /// The name of the directory that holds an environment's programs.
    pub fn bin_dir(self) -> (name: &'static str)
        ensures
            name@ == self.spec_bin_dir(),
    {
        match self {
            Platform::Windows => "Scripts",
            Platform::Other => "bin",
        }
    }

    /// The name of the interpreter inside that directory.
    pub fn interpreter(self) -> (name: &'static str)
        ensures
            name@ == self.spec_interpreter(),
    {
        match self {
            Platform::Windows => "python.exe",
            Platform::Other => "python",
        }
    }

    /// The name of the activation script inside that directory.
    pub fn activate(self) -> (name: &'static str)
        ensures
            name@ == self.spec_activate(),
    {
        "activate"
    }

    /// The separator as a string of one character.
    pub fn separator(self) -> (sep: &'static str)
        ensures
            sep@ == seq![self.spec_separator()],
    {
        match self {
            Platform::Windows => {
                proof {
                    reveal_strlit("\\");
                    assert("\\"@ =~= seq!['\\']);
                }
                "\\"
            },
            Platform::Other => {
                proof {
                    reveal_strlit("/");
                    assert("/"@ =~= seq!['/']);
                }
                "/"
            },
        }
    }
}

} // verus!
