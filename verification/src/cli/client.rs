//! The command line of the text client.

use vstd::prelude::*;

verus! {

pub const USAGE: &'static str = "
netholdem_client - text-based networked Texas hold'em.

Usage:
    netholdem_client <server> [--port=<n>]
    netholdem_client (-h | --help)
    netholdem_client --version

Options:
    -h --help       Show this screen.
    -V --version    Show version.
    --port=<n>      Port to bind or connect to. [default: 8023]
";

/// The arguments of the text client.
#[derive(Debug)]
pub struct Args {
    pub arg_server: String,
    pub flag_port: u16,
}

} // verus!
