//! The commands of the program and what each of them asks for.

use vstd::prelude::*;

verus! {

/// The command line.
#[derive(Debug)]
pub struct Cli {
    pub command: Command,
}

/// A command.
#[derive(Debug, PartialEq, Eq)]
pub enum Command {
    /// Install the named packages, or what the manifest declares where none
    /// is named.
    Install { package_names: Vec<String> },
    /// Set up a new project.
    Init {  },
    /// Print the version.
    Version { verbose: Option<bool> },
}

/// What a command asks for.
#[derive(Clone, Copy, Debug, PartialEq, Eq, Structural)]
pub enum Task {
    /// Take the latest version of each named package into the manifest, then
    /// install the manifest.
    InstallNamed,
    /// Install what the project's manifest declares.
    InstallManifest,
    /// Ask for the new project's particulars and write its descriptor.
    Scaffold,
    /// Print the version, with the build's particulars where `verbose`.
    Banner { verbose: bool },
}

/// What a command asks for.
pub open spec fn task_of(command: Command) -> Task {
    match command {
        Command::Install { package_names } => if package_names@.len() > 0 {
            Task::InstallNamed
        } else {
            Task::InstallManifest
        },
        Command::Init {  } => Task::Scaffold,
        Command::Version { verbose } => Task::Banner { verbose: verbose == Some(true) },
    }
}

impl Command {
    /// Decides what the command asks for.
    pub fn run(&self) -> (task: Task)
        ensures
            task == task_of(*self),
    {
        match self {
            Command::Install { package_names } => if package_names.len() > 0 {
                Task::InstallNamed
            } else {
                Task::InstallManifest
            },
            Command::Init {  } => Task::Scaffold,
            Command::Version { verbose } => Task::Banner {
                verbose: match verbose {
                    Some(v) => *v,
                    None => false,
                },
            },
        }
    }
}

} // verus!
