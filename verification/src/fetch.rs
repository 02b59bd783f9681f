//! The redirect-following fetch, as a decision function over responses. The
//! transport hands in one response at a time; the decision says whether to
//! follow a redirect, stop with a terminal response, or fail. Statuses 200
//! and 404 are both terminal successes: the caller inspects the status.

use vstd::prelude::*;

use crate::errors::PipelineError;

verus! {

/// How many redirects a single fetch may follow before it fails.
pub const MAX_REDIRECTS: u32 = 5;

/// A received HTTP response, reduced to what the pipeline reads of it.
pub struct HttpResponse {
    pub status: u16,
    /// The `location` header, when present.
    pub location: Option<String>,
    /// The `content-type` header, when present.
    pub content_type: Option<Vec<u8>>,
    /// The `content-disposition` header, when present.
    pub content_disposition: Option<Vec<u8>>,
    /// The `content-length` header, as received, when present.
    pub content_length: Option<Vec<u8>>,
    pub body: Vec<u8>,
}

/// What to do after one response.
pub enum FetchStep {
    /// Re-issue the request against this URI, taken verbatim from `location`.
    Follow(String),
    /// Terminal response; hand it to the caller.
    Done(HttpResponse),
    /// Fatal failure.
    Failed(PipelineError),
}

/// The decision for one response, after `redirects_followed` redirects.
pub open spec fn redirect_step_spec(response: HttpResponse, redirects_followed: u32) -> FetchStep {
    if response.status == 302 {
        match response.location {
            None => FetchStep::Failed(PipelineError::MissingLocationHeader),
            Some(loc) => if redirects_followed < MAX_REDIRECTS {
                FetchStep::Follow(loc)
            } else {
                FetchStep::Failed(PipelineError::TooManyRedirects)
            },
        }
    } else if response.status == 200 || response.status == 404 {
        FetchStep::Done(response)
    } else {
        FetchStep::Failed(PipelineError::UnexpectedStatus(response.status))
    }
}

/// Decides what one response means: follow its redirect, accept it as
/// terminal (200 or 404), or fail.
pub fn redirect_step(response: HttpResponse, redirects_followed: u32) -> (r: FetchStep)
    ensures
        r == redirect_step_spec(response, redirects_followed),
{
    if response.status == 302 {
        match response.location {
            None => FetchStep::Failed(PipelineError::MissingLocationHeader),
            Some(loc) => {
                if redirects_followed < MAX_REDIRECTS {
                    FetchStep::Follow(loc)
                } else {
                    FetchStep::Failed(PipelineError::TooManyRedirects)
                }
            },
        }
    } else if response.status == 200 || response.status == 404 {
        FetchStep::Done(response)
    } else {
        FetchStep::Failed(PipelineError::UnexpectedStatus(response.status))
    }
}

/// The outcome of a whole fetch whose successive responses are `responses`,
/// starting after `followed` redirects. Running out of responses models a
/// transport failure.
pub open spec fn fetch_outcome(responses: Seq<HttpResponse>, followed: u32) -> Result<
    HttpResponse,
    PipelineError,
>
    decreases responses.len(),
{
    if responses.len() == 0 {
        Err(PipelineError::UpstreamUnavailable)
    } else {
        match redirect_step_spec(responses[0], followed) {
            FetchStep::Follow(_) => fetch_outcome(
                responses.drop_first(),
                (followed + 1) as u32,
            ),
            FetchStep::Done(r) => Ok(r),
            FetchStep::Failed(e) => Err(e),
        }
    }
}

/// Runs the redirect decisions over a sequence of responses in arrival
/// order: the transcript of one fetch. Consumes a response per attempt.
pub fn run_redirects(responses: Vec<HttpResponse>) -> (r: Result<HttpResponse, PipelineError>)
    ensures
        r == fetch_outcome(responses@, 0),
{
    let mut rest = responses;
    let mut followed: u32 = 0;
    loop
        invariant
            followed <= MAX_REDIRECTS,
            fetch_outcome(rest@, followed) == fetch_outcome(responses@, 0),
        decreases rest@.len(),
    {
        if rest.len() == 0 {
            return Err(PipelineError::UpstreamUnavailable);
        }
        let next = rest.remove(0);
        match redirect_step(next, followed) {
            FetchStep::Follow(_) => {
                followed += 1;
            },
            FetchStep::Done(r) => {
                return Ok(r);
            },
            FetchStep::Failed(e) => {
                return Err(e);
            },
        }
    }
}

} // verus!
