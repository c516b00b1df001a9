//! The command line of the line-based server.

use vstd::prelude::*;

verus! {

pub const USAGE: &'static str = "
netholdem_server - text-based networked Texas hold'em.

Usage:
    netholdem_server <bind-addr>
    netholdem_server  (-h | --help)
    netholdem_server  --version

Options:
    -h --help       Show this screen.
    -V --version    Show version.
";

/// The arguments of the line-based server.
#[derive(Debug)]
pub struct Args {
    pub arg_bind_addr: String,
}

} // verus!
