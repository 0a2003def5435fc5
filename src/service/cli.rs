use vstd::prelude::*;

verus! {

/// The parsed command line: one command and the global verbosity switch.
#[derive(Debug, Clone)]
pub struct Cli {
    pub cmd: Command,
    pub verbose: bool,
}

#[derive(Debug, Clone)]
pub enum Command {
    Send(SendArgs),
    Receive(ReceiveArgs),
    Discover(DiscoverArgs),
}

#[derive(Debug, Clone)]
pub struct SendArgs {
    pub path: String,
    pub verbose: bool,
}

#[derive(Debug, Clone)]
pub struct ReceiveArgs {
    pub code: String,
    pub rename: Option<String>,
    pub verbose: bool,
}

#[derive(Debug, Clone)]
pub struct DiscoverArgs {
    pub verbose: bool,
}

/// Why a command was not carried out.
#[derive(Debug, Clone, Copy, PartialEq, Eq, Structural)]
pub enum RunError {
    /// The command handed over is not the one this entry point serves.
    WrongCommand,
    /// The path is neither a regular file nor a directory.
    UnsupportedFileType,
    /// The path could not be read.
    Inaccessible,
    /// The entered code is not a pairing code.
    MalformedCode,
}

/// How much is logged.
#[derive(Debug, Clone, Copy, PartialEq, Eq, Structural)]
pub enum LogLevel {
    Debug,
    Warn,
}

/// `--verbose` raises logging to debug; otherwise only warnings and errors show.
pub fn log_level(args: &Cli) -> (r: LogLevel)
    ensures
        r == (if args.verbose { LogLevel::Debug } else { LogLevel::Warn }),
{
    if args.verbose {
        LogLevel::Debug
    } else {
        LogLevel::Warn
    }
}

} // verus!
