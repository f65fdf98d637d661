//! Shared data model: the canonical region tokens, instances and
//! volumes as the rule store sees them, and worker metadata.

use vstd::prelude::*;
use crate::strutil::str_eq;

verus! {

/// A canonical region token of the control plane.
#[derive(Clone, Copy, Debug, PartialEq, Eq, Structural)]
pub enum Region {
    Frankfurt,
    NewYork,
}

/// The token could not be parsed.
#[derive(Clone, Copy, Debug, PartialEq, Eq, Structural)]
pub struct RegionParseError;

impl RegionParseError {
    /// The message the error renders as.
    pub fn message(&self) -> (s: &'static str)
        ensures
            s@ == "could not parse region"@,
    {
        "could not parse region"
    }
}

/// The region a token names.
pub open spec fn spec_region_of_token(s: Seq<char>) -> Option<Region> {
    if s == "Frankfurt"@ {
        Some(Region::Frankfurt)
    } else if s == "NewYork"@ {
        Some(Region::NewYork)
    } else {
        None
    }
}

/// The token of a region.
pub open spec fn spec_region_token(r: Region) -> Seq<char> {
    match r {
        Region::Frankfurt => "Frankfurt"@,
        Region::NewYork => "NewYork"@,
    }
}

impl Region {
    /// Parses a canonical region token.
    pub fn parse_token(s: &str) -> (r: Result<Region, RegionParseError>)
        ensures
            r matches Ok(region) ==> spec_region_of_token(s@) == Some(region),
            r is Err ==> spec_region_of_token(s@) is None,
    {
        if str_eq(s, "Frankfurt") {
            Ok(Region::Frankfurt)
        } else if str_eq(s, "NewYork") {
            Ok(Region::NewYork)
        } else {
            Err(RegionParseError)
        }
    }

    /// Renders the region as its canonical token.
    pub fn token(&self) -> (s: &'static str)
        ensures
            s@ == spec_region_token(*self),
    {
        match self {
            Region::Frankfurt => "Frankfurt",
            Region::NewYork => "NewYork",
        }
    }
}

/// The canonical token round-trips for every region.
pub proof fn lemma_region_token_round_trip(r: Region)
    ensures
        spec_region_of_token(spec_region_token(r)) == Some(r),
{
    reveal_strlit("Frankfurt");
    reveal_strlit("NewYork");
    assert("Frankfurt"@.len() == 9);
    assert("NewYork"@.len() == 7);
}

/// A persistent volume as the store models it.
#[derive(Debug, Clone)]
pub struct Volume {
    pub id: String,
    pub provider: String,
    pub size_gb: u64,
    pub tier: String,
    pub volume_type: String,
    pub attached_to: Option<String>,
}

/// A cloud-provisioned compute unit.
#[derive(Debug, Clone)]
pub struct Instance {
    pub provider: String,
    pub region: String,
    pub vcpu: u64,
    pub memory: u64,
    pub boot_volume: Volume,
}

/// An error a request handler reports to its caller.
#[derive(Debug, Clone)]
pub struct ServiceError {
    pub message: String,
}

impl ServiceError {
    /// Wraps a message.
    pub fn new(message: String) -> (e: ServiceError)
        ensures
            e.message == message,
    {
        ServiceError { message }
    }

    /// The error as response text.
    pub fn render(&self) -> (s: String)
        ensures
            s@ == "Service error: "@ + self.message@,
    {
        let mut s = "Service error: ".to_owned();
        s.append(self.message.as_str());
        s
    }
}

/// Network metadata a worker reports; nothing measured yet.
#[derive(Debug, Clone)]
pub struct NetworkMetadata {
    pub network: Option<u64>,
}

impl NetworkMetadata {
    /// Starts with nothing measured.
    pub fn new() -> (m: NetworkMetadata)
        ensures
            m.network is None,
    {
        NetworkMetadata { network: None }
    }
}

} // verus!
