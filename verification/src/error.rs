use vstd::prelude::*;

verus! {

/// Why a fetch was abandoned. Every variant unwinds the whole fetch; nothing
/// partial is returned alongside it.
#[derive(Clone, Copy, Debug, PartialEq, Eq, Structural)]
pub enum PipelineError {
    /// The input holds no `<host>/<kind>/<digits>` link.
    InvalidLinkFormat,
    /// The link's kind word is none of the five supported ones.
    UnsupportedEntityKind,
    /// The list endpoint answered `page` with a status outside 200..=299.
    UpstreamListError { page: u32, status: u16 },
    /// The list endpoint could not be reached for `page`.
    ListTransportFailure { page: u32 },
    /// The list endpoint answered `page` with a body that is no list of summaries.
    ListBodyMalformed { page: u32 },
    /// A detail or name-resolution reply carried status 429 or 420.
    RateLimited { status: u16 },
}

/// Statuses that count as success: 200 up to and including 299.
pub open spec fn is_success(status: u16) -> bool {
    200 <= status <= 299
}

/// Statuses by which the upstream asks the caller to back off.
pub open spec fn is_rate_limit(status: u16) -> bool {
    status == 429 || status == 420
}

pub fn status_is_success(status: u16) -> (r: bool)
    ensures
        r == is_success(status),
{
    200 <= status && status <= 299
}

pub fn status_is_rate_limit(status: u16) -> (r: bool)
    ensures
        r == is_rate_limit(status),
{
    status == 429 || status == 420
}

} // verus!
