//! The wallet tool's command line, as plain values.
use vstd::prelude::*;

verus! {

/// The wallet tool's arguments.
pub struct Cli {
    pub cmd: Command,
}

/// A wallet command.
pub enum Command {
    /// Generate a new secp256k1 wallet.
    Create(CreateOpts),
}

/// Options of the command that creates a wallet.
pub struct CreateOpts {
    /// File that receives the wallet's private key.
    pub output: String,
}

} // verus!
