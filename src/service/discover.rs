use vstd::prelude::*;
use crate::service::cli::{Cli, Command, DiscoverArgs, RunError};

verus! {

/// Takes the `discover` command's arguments out of the command line; any other command is
/// refused.
pub fn run(args: Cli) -> (r: Result<DiscoverArgs, RunError>)
    ensures
        match args.cmd {
            Command::Discover(d) => r matches Ok(a) && a.verbose == d.verbose,
            _ => r == Err::<DiscoverArgs, RunError>(RunError::WrongCommand),
        },
{
    match args.cmd {
        Command::Discover(d) => Ok(d),
        _ => Err(RunError::WrongCommand),
    }
}

} // verus!
