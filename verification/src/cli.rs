//! The command-line surface as plain data: what the operator asked for,
//! free of any argument-parsing machinery.  The binary parses its arguments
//! with its own types and converts into these.

use vstd::prelude::*;

verus! {

/// Subcommands that manage accounts.
pub enum AccountCommands {
    Add,
    Remove { username: String },
}

/// Subcommands that manage SSH connections.
pub enum SSHSetupCommands {
    Add { username_or_alias: String, default: bool },
    List,
}

/// Every operation the tool offers.
pub enum Commands {
    Account(AccountCommands),
    Me,
    List,
    Use { username: String, local: bool },
    SSH(SSHSetupCommands),
    Commit { message: Option<String>, username_or_alias: Option<String> },
    Clone { url: String, username_or_alias: Option<String>, path: Option<String> },
    Setup,
}

/// One invocation of the tool.
pub struct GitSockCli {
    pub command: Commands,
}

} // verus!
