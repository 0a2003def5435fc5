use vstd::prelude::*;
use crate::code::{generate, PairingCode};
use crate::service::cli::{Cli, Command, RunError};

verus! {

/// What the file system says the path to send is.
#[derive(Debug, Clone, Copy, PartialEq, Eq, Structural)]
pub enum EntryKind {
    File,
    Directory,
    Other,
    Missing,
}

/// What the sender goes on with: the path, whether it is a directory, and a fresh code.
#[derive(Debug, Clone)]
pub struct SendPlan {
    pub path: String,
    pub is_dir: bool,
    pub code: PairingCode,
}

/// Decides the `send` command for a path of the given kind: a file or a directory goes ahead
/// under a freshly drawn code; anything else is refused, as is any other command.
pub fn run(args: Cli, kind: EntryKind) -> (r: Result<SendPlan, RunError>)
    ensures
        match args.cmd {
            Command::Send(s) => match kind {
                EntryKind::File => r matches Ok(p) && p.path@ == s.path@ && !p.is_dir && p.code.wf(),
                EntryKind::Directory => r matches Ok(p) && p.path@ == s.path@ && p.is_dir && p.code.wf(),
                EntryKind::Other => r == Err::<SendPlan, RunError>(RunError::UnsupportedFileType),
                EntryKind::Missing => r == Err::<SendPlan, RunError>(RunError::Inaccessible),
            },
            _ => r == Err::<SendPlan, RunError>(RunError::WrongCommand),
        },
{
    match args.cmd {
        Command::Send(s) => {
            let is_dir = match kind {
                EntryKind::File => false,
                EntryKind::Directory => true,
                EntryKind::Other => {
                    return Err(RunError::UnsupportedFileType);
                },
                EntryKind::Missing => {
                    return Err(RunError::Inaccessible);
                },
            };
            let code = generate();
            Ok(SendPlan { path: s.path, is_dir, code })
        },
        _ => Err(RunError::WrongCommand),
    }
}

} // verus!
