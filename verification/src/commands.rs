//! The commands of the program on a project, and the messages they report.

use vstd::prelude::*;
use crate::project::{Project, ProjectError};
use crate::text::{append_str, literal};

verus! {

/// An error of a command.
pub enum CommandError {
    /// The project could not be initialized.
    Init,
    /// The project could not be validated.
    Check,
    /// The project could not be built.
    Build,
}

/// Reports the initialization of a project at `path`: the message of its
/// success, or the command's error.
pub fn init(path: &str, project: Result<Project, ProjectError>) -> (r: Result<String, CommandError>)
    ensures
        match project {
            Ok(_) => r matches Ok(m) && m@ == "Successfully initialized albumctl project at "@
                + path@,
            Err(_) => r matches Err(CommandError::Init),
        },
{
    match project {
        Ok(_) => {
            let mut m = literal("Successfully initialized albumctl project at ");
            append_str(&mut m, path);
            Ok(m)
        },
        Err(_) => Err(CommandError::Init),
    }
}

/// Reports the validation of the project at `path`: the message of its
/// success, or the command's error.
pub fn check(path: &str, project: Result<Project, ProjectError>) -> (r: Result<String, CommandError>)
    ensures
        match project {
            Ok(_) => r matches Ok(m) && m@ == "Successfully validated albumctl project at "@
                + path@,
            Err(_) => r matches Err(CommandError::Check),
        },
{
    match project {
        Ok(_) => {
            let mut m = literal("Successfully validated albumctl project at ");
            append_str(&mut m, path);
            Ok(m)
        },
        Err(_) => Err(CommandError::Check),
    }
}

} // verus!
