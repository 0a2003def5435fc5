use vstd::prelude::*;
use crate::code::{parse_code, validate, PairingCode};
use crate::service::cli::{Cli, Command, RunError};
use vstd::utf8::encode_utf8;

verus! {

/// What the receiver goes on with: the code entered, and the name for the root item, if any.
#[derive(Debug, Clone)]
pub struct ReceivePlan {
    pub code: PairingCode,
    pub rename: Option<String>,
}

/// Decides the `receive` command: the entered code must parse; any other command is refused.
pub fn run(args: Cli) -> (r: Result<ReceivePlan, RunError>)
    ensures
        match args.cmd {
            Command::Receive(a) => match parse_code(encode_utf8(a.code@)) {
                Some(c) => r matches Ok(p) && p.code == c && p.rename == a.rename,
                None => r == Err::<ReceivePlan, RunError>(RunError::MalformedCode),
            },
            _ => r == Err::<ReceivePlan, RunError>(RunError::WrongCommand),
        },
{
    match args.cmd {
        Command::Receive(a) => match validate(a.code.as_str()) {
            Ok(code) => Ok(ReceivePlan { code, rename: a.rename }),
            Err(_) => Err(RunError::MalformedCode),
        },
        _ => Err(RunError::WrongCommand),
    }
}

} // verus!
