//! Reporting a match, and the two ways a search can fail.

use vstd::prelude::*;

verus! {

/// Why a search was given up.
#[derive(Debug, PartialEq, Eq)]
pub enum ScanError {
    /// The activation script of a match has no canonical path.
    PathResolution {
        /// The path as the search built it.
        path: String,
        /// What the system said.
        cause: String,
    },
    /// A directory was opened, and reading one of its entries failed.
    EntryRead {
        /// What the system said.
        cause: String,
    },
}

/// A [`ScanError`] in specifications.
pub enum ScanErrorModel {
    PathResolution { path: Seq<char>, cause: Seq<char> },
    EntryRead { cause: Seq<char> },
}

impl View for ScanError {
    type V = ScanErrorModel;

    open spec fn view(&self) -> ScanErrorModel {
        match *self {
            ScanError::PathResolution { path, cause } => ScanErrorModel::PathResolution {
                path: path@,
                cause: cause@,
            },
            ScanError::EntryRead { cause } => ScanErrorModel::EntryRead { cause: cause@ },
        }
    }
}

impl ScanErrorModel {
    /// The one line that tells a user what went wrong.
    pub open spec fn message(self) -> Seq<char> {
        match self {
            ScanErrorModel::PathResolution { path, cause } =>
                "unable to get canonical path for relative path "@ + path,
            ScanErrorModel::EntryRead { cause } => cause,
        }
    }

    /// What the system said, which stands behind the message.
    pub open spec fn cause(self) -> Seq<char> {
        match self {
            ScanErrorModel::PathResolution { path, cause } => cause,
            ScanErrorModel::EntryRead { cause } => cause,
        }
    }
}

impl ScanError {
    /// The one line that tells a user what went wrong.
    pub fn message(&self) -> (text: String)
        ensures
            text@ == self@.message(),
    {
        match self {
            ScanError::PathResolution { path, cause } => {
                let mut text = "unable to get canonical path for relative path ".to_owned();
                text.append(path.as_str());
                text
            },
            ScanError::EntryRead { cause } => cause.clone(),
        }
    }

    /// What the system said, which stands behind the message.
    pub fn cause(&self) -> (text: String)
        ensures
            text@ == self@.cause(),
    {
        match self {
            ScanError::PathResolution { path, cause } => cause.clone(),
            ScanError::EntryRead { cause } => cause.clone(),
        }
    }

    /// A second value that reads the same.
    pub fn duplicate(&self) -> (copy: ScanError)
        ensures
            copy@ == self@,
    {
        match self {
            ScanError::PathResolution { path, cause } => ScanError::PathResolution {
                path: path.clone(),
                cause: cause.clone(),
            },
            ScanError::EntryRead { cause } => ScanError::EntryRead { cause: cause.clone() },
        }
    }
}

/// What becomes of a match whose activation script is `path`, once the system
/// has answered for its canonical path: the line to print, or the failure.
pub open spec fn emission(path: Seq<char>, resolved: Result<Seq<char>, Seq<char>>) -> Result<
    Seq<char>,
    ScanErrorModel,
> {
    match resolved {
        Ok(canonical) => Ok(canonical),
        Err(cause) => Err(ScanErrorModel::PathResolution { path, cause }),
    }
}

/// The view of a result that holds strings on both sides.
pub open spec fn resolved_view(resolved: Result<String, String>) -> Result<Seq<char>, Seq<char>> {
    match resolved {
        Ok(canonical) => Ok(canonical@),
        Err(cause) => Err(cause@),
    }
}

/// The view of a line or the failure in its place.
pub open spec fn emission_view(shown: Result<String, ScanError>) -> Result<
    Seq<char>,
    ScanErrorModel,
> {
    match shown {
        Ok(line) => Ok(line@),
        Err(error) => Err(error@),
    }
}

/// Turns the path of a found activation script into the line that reports
/// it. `resolved` is the canonical form of `path`, or what the system said
/// when it could not give one. The line is the canonical path, with nothing
/// added; without one the search fails, since the path of a match that cannot
/// be resolved is not worth printing.
pub fn display_virtual_env(path: &str, resolved: Result<String, String>) -> (shown: Result<
    String,
    ScanError,
>)
    ensures
        emission_view(shown) == emission(path@, resolved_view(resolved)),
{
    match resolved {
        Ok(canonical) => Ok(canonical),
        Err(cause) => Err(ScanError::PathResolution { path: path.to_owned(), cause }),
    }
}

} // verus!
