//! Where the todo file and the backup file are: a local file first, then a
//! directory named by the environment, then the home directory.

use vstd::prelude::*;

verus! {

/// The directory that holds a store file.
#[derive(Debug, Clone, Copy, PartialEq, Eq, Structural)]
pub enum Location {
    /// The current directory.
    Local,
    /// The directory that the environment names.
    EnvDir,
    /// The home directory.
    Home,
}

/// Where the todo file is. `local_exists`: a todo file exists in the current
/// directory; `env_is_dir`: whether the environment's path is a directory,
/// `None` where the variable is unset.
pub fn todo_location(local_exists: bool, env_is_dir: Option<bool>) -> (r: Location)
    ensures
        local_exists ==> r == Location::Local,
        !local_exists && env_is_dir == Some(true) ==> r == Location::EnvDir,
        !local_exists && env_is_dir != Some(true) ==> r == Location::Home,
{
    if local_exists {
        Location::Local
    } else {
        backup_location(env_is_dir)
    }
}

/// Where the backup file is: in the environment's directory where it is one,
/// else in the home directory.
pub fn backup_location(env_is_dir: Option<bool>) -> (r: Location)
    ensures
        env_is_dir == Some(true) ==> r == Location::EnvDir,
        env_is_dir != Some(true) ==> r == Location::Home,
{
    match env_is_dir {
        Some(true) => Location::EnvDir,
        _ => Location::Home,
    }
}

} // verus!
