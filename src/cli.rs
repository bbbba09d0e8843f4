//! Command-line options of the exporter.
use vstd::prelude::*;

verus! {

/// Where the exporter listens.
#[derive(Clone, Debug)]
pub struct CommandArgs {
    pub port: u16,
    pub address: String,
}

} // verus!
