//! Desired-state rules: one row per provider, with the regions it
//! covers and the number of pre-warmed instances each region keeps.

use vstd::prelude::*;

verus! {

/// A desired-state row as the rule store holds it.
#[derive(Debug, Clone)]
pub struct Rule {
    pub provider: String,
    pub regions: Vec<String>,
    pub instance_count: usize,
}

impl Rule {
    /// Builds a rule from one store row.
    pub fn new(provider: String, regions: Vec<String>, instance_count: usize) -> (r: Rule)
        ensures
            r.provider == provider,
            r.regions == regions,
            r.instance_count == instance_count,
    {
        Rule { provider, regions, instance_count }
    }
}

} // verus!
