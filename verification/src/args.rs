//! The commands of the utility, as decoded from its arguments.

use vstd::prelude::*;

verus! {

/// The decoded arguments: one command.
pub struct Args {
    pub command: Command,
}

/// What the utility is asked to do.
pub enum Command {
    /// Reset the MAC address to the permaddr of the interface
    Reset { ifname: String },
    /// Set the MAC address to a specified value
    SetAddr { ifname: String, addr: String },
    /// Set a random MAC address
    Random { ifname: String },
    /// Get current MAC address
    Get { ifname: String },
    /// Get permanent MAC address
    Perm { ifname: String },
    /// Get a list of all available interfaces
    Inames {
        /// List all interfaces in a single line rather than one on each line
        single_line: bool,
    },
    /// Print shell completion definitions
    Completions {
        /// Print completions for the specified shell
        shell: Shell,
    },
}

/// A shell that completion definitions exist for.
#[derive(Debug, Clone, Copy, PartialEq, Eq)]
pub enum Shell {
    Fish,
}

} // verus!
