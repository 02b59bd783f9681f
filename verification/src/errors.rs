//! The error taxonomy of the pipeline. `NoCandidate` is deliberately not
//! here: an empty survivor set is a retry signal, not an error.

use vstd::prelude::*;

verus! {

/// A fatal pipeline failure. Every variant aborts the run.
#[derive(Clone, Copy, Debug, PartialEq, Eq, Structural)]
pub enum PipelineError {
    /// An upstream service did not respond or its answer could not be read.
    UpstreamUnavailable,
    /// A required field was missing or had the wrong shape in a response.
    SchemaViolation,
    /// A redirect response carried no `location` header.
    MissingLocationHeader,
    /// The redirect budget was exhausted before a terminal response came.
    TooManyRedirects,
    /// A response status that the fetcher does not handle.
    UnexpectedStatus(u16),
}

impl PipelineError {
    /// A short diagnostic label for the variant.
    pub fn label(&self) -> (r: &'static str)
        ensures
            r@ == self.label_spec(),
    {
        match self {
            PipelineError::UpstreamUnavailable => "upstream unavailable",
            PipelineError::SchemaViolation => "schema violation",
            PipelineError::MissingLocationHeader => "302 response without location header",
            PipelineError::TooManyRedirects => "too many redirects",
            PipelineError::UnexpectedStatus(_) => "unexpected status code",
        }
    }

    /// What `label` returns for each variant.
    pub open spec fn label_spec(&self) -> Seq<char> {
        match self {
            PipelineError::UpstreamUnavailable => "upstream unavailable"@,
            PipelineError::SchemaViolation => "schema violation"@,
            PipelineError::MissingLocationHeader => "302 response without location header"@,
            PipelineError::TooManyRedirects => "too many redirects"@,
            PipelineError::UnexpectedStatus(_) => "unexpected status code"@,
        }
    }
}

} // verus!
