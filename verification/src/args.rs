//! The relay node's command-line configuration, as plain data.
//!
//! The process front end parses the command line into these values and
//! hands them on; nothing here reads the environment itself.

use vstd::prelude::*;

verus! {

/// Configuration of the `node` subcommand: the HTTP port to serve on, the
/// Redis channel and endpoint for hint publication, and the simulation
/// endpoints to forward accepted bundles to.
#[derive(Debug)]
pub struct NodeCommand {
    pub port: u16,
    pub redis_channel_name: String,
    pub redis_endpoint: String,
    pub simulation_endpoint: Vec<String>,
}

/// The subcommands the relay offers.
#[derive(Debug)]
pub enum Subcommands {
    Node(NodeCommand),
}

/// The parsed command line.
#[derive(Debug)]
pub struct Args {
    pub subcommands: Subcommands,
}

} // verus!
