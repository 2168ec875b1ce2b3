//! Which template is rendered: the user's override where there is one, the
//! bundled default otherwise.

use vstd::prelude::*;
use crate::error::InfoError;

verus! {

/// The directory under which the users' homes lie.
pub const HOMES: &'static str = "/home/";

/// Where the override template lies under a user's home.
pub const OVERRIDE: &'static str = "/.config/freshfetch/info.clml";

/// The path of the override template of the user named `user`.
pub open spec fn override_path_of(user: Seq<char>) -> Seq<char> {
    HOMES@ + user + OVERRIDE@
}

/// The path of the override template of the user named `user`. With an
/// empty name it is a path under which no file is expected.
pub fn override_path(user: &str) -> (path: String)
    ensures
        path@ == override_path_of(user@),
{
    let mut path = String::from_str(HOMES);
    path.append(user);
    path.append(OVERRIDE);
    path
}

/// What was found at the override path.
#[derive(Debug, PartialEq, Eq)]
pub enum OverrideFile {
    /// There is no file.
    Missing,
    /// There is a file, and reading it failed.
    Unreadable { path: String, cause: String },
    /// There is a file, and this is what it holds.
    Contents(String),
}

/// Selects the template to render. An override that exists wins over the
/// bundled template; one that exists and cannot be read is an error, and the
/// bundled template does not stand in for it.
pub fn select(file: OverrideFile, bundled: &str) -> (r: Result<String, InfoError>)
    ensures
        match file {
            OverrideFile::Missing => r matches Ok(template) && template@ == bundled@,
            OverrideFile::Contents(text) => r == Ok::<String, InfoError>(text),
            OverrideFile::Unreadable { path, cause } => r == Err::<String, InfoError>(
                InfoError::Read { path, cause },
            ),
        },
{
    match file {
        OverrideFile::Missing => Ok(String::from_str(bundled)),
        OverrideFile::Contents(text) => Ok(text),
        OverrideFile::Unreadable { path, cause } => Err(InfoError::Read { path, cause }),
    }
}

} // verus!
