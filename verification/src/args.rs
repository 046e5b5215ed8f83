//! Runtime configuration: the values the command line hands the program.
//! Argument parsing itself happens outside the library.

use vstd::prelude::*;

verus! {

/// The program's configuration.
pub struct Args {
    /// Address of the canvas server to connect to.
    pub server_address: String,
}

} // verus!
