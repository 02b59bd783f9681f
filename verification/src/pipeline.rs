//! The orchestrator's decisions. The transport performs the requests and
//! the waits; the decisions here say which coordinate an attempt uses,
//! when discovery retries, and how long the pauses are.

use vstd::prelude::*;

use crate::errors::PipelineError;
use crate::model::Geopoint;

verus! {

/// The pause between unsuccessful discovery attempts, in milliseconds.
pub const DISCOVERY_RETRY_PAUSE_MILLIS: u64 = 2500;

/// The pause after every caption request, in milliseconds. Applied
/// unconditionally, also after the last photo.
pub const DESCRIPTION_PAUSE_MILLIS: u64 = 4300;

/// What discovery does after one attempt.
#[derive(PartialEq, Eq, Structural, Debug)]
pub enum DiscoveryStep {
    /// A survivor was found: move on to enrichment.
    Proceed,
    /// No survivor: wait `DISCOVERY_RETRY_PAUSE_MILLIS` and sample again.
    RetryAfterPause,
}

/// Decides whether an attempt's outcome ends the discovery loop. Only an
/// empty survivor set retries; every error has already aborted the run.
pub fn discovery_decision(found: Option<usize>) -> (r: DiscoveryStep)
    ensures
        r == DiscoveryStep::Proceed <==> found is Some,
{
    match found {
        Some(_) => DiscoveryStep::Proceed,
        None => DiscoveryStep::RetryAfterPause,
    }
}

/// The coordinate one attempt uses: the first of the sampled sequence.
/// The sampler owes a non-empty sequence; an empty one is a schema
/// violation.
pub fn first_location(locations: Vec<Geopoint>) -> (r: Result<Geopoint, PipelineError>)
    ensures
        match r {
            Ok(g) => locations@.len() > 0 && g == locations@[0],
            Err(e) => e == PipelineError::SchemaViolation && locations@.len() == 0,
        },
{
    let mut locations = locations;
    if locations.len() == 0 {
        return Err(PipelineError::SchemaViolation);
    }
    Ok(locations.remove(0))
}

} // verus!
