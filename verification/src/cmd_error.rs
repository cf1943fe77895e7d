//! What can be wrong with the parameters of a command.

use vstd::prelude::*;

verus! {

/// A command whose parameters do not have the form that the command asks
/// for.
#[derive(Clone, Copy, Debug, PartialEq, Eq, Structural)]
pub enum CmdError {
    /// The parameters of the `simple` command.
    SimpleCmdError,
    /// The parameters of the `coins` command.
    CoinsCmdError,
}

impl CmdError {
    /// The sentence that tells a user of this error.
    pub open spec fn message_text(self) -> Seq<char> {
        match self {
            CmdError::SimpleCmdError => "invalid format of Simple command parameter"@,
            CmdError::CoinsCmdError => "invalid format of Coins command parameter"@,
        }
    }

    /// The sentence that tells a user of this error.
    pub fn message(&self) -> (text: String)
        ensures
            text@ == self.message_text(),
    {
        match self {
            CmdError::SimpleCmdError => "invalid format of Simple command parameter".to_owned(),
            CmdError::CoinsCmdError => "invalid format of Coins command parameter".to_owned(),
        }
    }
}

} // verus!
