//! The launcher script of a site.

use vstd::prelude::*;

verus! {

/// What the launcher script is written from.
#[derive(Debug)]
pub struct Bridgehead {
    /// The ids of the brokers the site talks to, each once.
    pub beam_networks: Vec<String>,
}

impl Bridgehead {
    pub fn new(beam_networks: Vec<String>) -> (launcher: Self)
        ensures
            launcher.beam_networks == beam_networks,
    {
        Bridgehead { beam_networks }
    }
}

} // verus!
