//! Dynamic DNS updates through an `nsupdate` compatible tool.
//!
//! `config` resolves a run's parameters, `transcript` builds the update script
//! that the tool reads on its input, and `run` decides, event by event, what a
//! run does next: look up the public addresses, start the tool, or exit.
//! `ttl` reads and prints record TTLs.
use vstd::prelude::*;

pub mod config;
pub mod run;
pub mod transcript;
pub mod ttl;

verus! {

} // verus!
