//! A verified core for a single-endpoint meme feed service.
//!
//! The library validates query parameters, builds the upstream request URL,
//! filters fetched posts by content-safety and media rules, derives text
//! snippets, and resolves a display image per post.  All text is handled as
//! UTF-8 byte strings (`Vec<u8>`), so every rule is stated and proved over
//! `Seq<u8>`.

use vstd::prelude::*;

pub mod fetch;
pub mod filter;
pub mod image;
pub mod post;
pub mod query;
pub mod render;
pub mod snippets;
pub mod text;

verus! {

/// Query parameters accepted by the meme endpoint.
pub struct Params {
    pub name: Option<Vec<u8>>,
    pub limit: Option<i32>,
}

/// Failures of the fetch/parse pipeline.
#[derive(Debug, PartialEq, Eq)]
pub enum ApiError {
    /// A malformed community identifier or out-of-range parameter.
    InvalidInput,
    /// A non-success HTTP status from the upstream API.
    UpstreamError(u16),
    /// An unreadable response body or a JSON shape mismatch, with its
    /// diagnostic; neither crosses the trust boundary to a client.
    ParseError(Vec<u8>),
}

/// The limit applied when the query names none.
pub const DEFAULT_LIMIT: i32 = 10;

/// Checks the `limit` parameter: absent means the default, present values
/// must lie in `[1, 50]`; anything else is rejected.
pub fn validate_limit(limit: Option<i32>) -> (r: Result<i32, ApiError>)
    ensures
        limit is None ==> r == Ok::<i32, ApiError>(DEFAULT_LIMIT),
        limit matches Some(l) ==> r == (if 1 <= l <= 50 {
            Ok::<i32, ApiError>(l)
        } else {
            Err::<i32, ApiError>(ApiError::InvalidInput)
        }),
{
    match limit {
        None => Ok(DEFAULT_LIMIT),
        Some(l) => {
            if 1 <= l && l <= 50 {
                Ok(l)
            } else {
                Err(ApiError::InvalidInput)
            }
        },
    }
}

} // verus!
