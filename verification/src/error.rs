//! The fault taxonomy of the crawl engine.
//!
//! Every fault bubbles to the orchestrator call boundary unmodified: a crawl
//! either returns a complete record list or fails as a whole.

use vstd::prelude::*;

verus! {

/// A fault raised somewhere in a crawl invocation.
#[derive(Clone, Copy, Debug, PartialEq, Eq, Structural)]
pub enum CrawlError {
    /// A required credential or identifier is missing; raised before any request.
    ConfigFault,
    /// An HTTP or network failure; fails the in-progress crawl, no retry.
    TransportFault,
    /// A response body does not match the expected wire schema.
    DecodeFault,
    /// A timestamp does not match its source's expected encoding.
    TimeParseFault,
    /// A joined page could not resolve a foreign key against its side table.
    LookupFault,
    /// The latest-record operation found a source with zero items.
    EmptySourceFault,
}

impl CrawlError {
    /// A short stable name for the fault, for callers that report it.
    pub fn message(&self) -> (r: &'static str)
        ensures
            r@ == self.message_spec(),
    {
        match self {
            CrawlError::ConfigFault => "config fault",
            CrawlError::TransportFault => "transport fault",
            CrawlError::DecodeFault => "decode fault",
            CrawlError::TimeParseFault => "time parse fault",
            CrawlError::LookupFault => "lookup fault",
            CrawlError::EmptySourceFault => "empty source fault",
        }
    }

    /// What `message` returns for each variant.
    pub open spec fn message_spec(&self) -> Seq<char> {
        match self {
            CrawlError::ConfigFault => "config fault"@,
            CrawlError::TransportFault => "transport fault"@,
            CrawlError::DecodeFault => "decode fault"@,
            CrawlError::TimeParseFault => "time parse fault"@,
            CrawlError::LookupFault => "lookup fault"@,
            CrawlError::EmptySourceFault => "empty source fault"@,
        }
    }
}

} // verus!
