//! The verified half of the upstream fetch: community-name validation (the
//! sole defence against request forgery through crafted identifiers), the
//! upstream URL, and the classification of the upstream HTTP status.  The
//! network call itself is I/O and lives outside the library.

use vstd::prelude::*;
use vstd::string::{StrSliceExecFns, StringSliceAdditionalSpecFns};

use crate::text::append_bytes;
use crate::ApiError;

verus! {

/// A byte a community name may hold: an ASCII letter, a digit, or `_`.
pub open spec fn valid_name_byte(b: u8) -> bool {
    (65 <= b <= 90) || (97 <= b <= 122) || (48 <= b <= 57) || b == 95
}

/// A well-formed community name.
pub open spec fn valid_name(s: Seq<u8>) -> bool {
    forall|i: int| 0 <= i < s.len() ==> valid_name_byte(s[i])
}

/// The community fetched when the caller names none.
pub open spec fn spec_target_name(name: Option<Seq<u8>>) -> Seq<u8> {
    match name {
        Some(n) => n,
        None => "MemesBR".spec_bytes(),
    }
}

/// The decimal digits of `n` (meaningful for `n >= 0`).
pub open spec fn spec_decimal(n: int) -> Seq<u8>
    decreases n,
{
    if n < 10 {
        seq![(48 + n) as u8]
    } else {
        spec_decimal(n / 10) + seq![(48 + n % 10) as u8]
    }
}

/// The upstream top-posts listing URL for a community and a limit.
pub open spec fn spec_top_url(name: Seq<u8>, limit: int) -> Seq<u8> {
    "https://www.reddit.com/r/".spec_bytes() + name + "/top.json?limit=".spec_bytes()
        + spec_decimal(limit)
}

/// Checks that `name` holds only ASCII letters, digits and underscores;
/// anything else is rejected before any request could be built from it.
pub fn validate_name(name: &Vec<u8>) -> (r: Result<(), ApiError>)
    ensures
        r is Ok <==> valid_name(name@),
        r is Err ==> r == Err::<(), ApiError>(ApiError::InvalidInput),
{
    let mut i: usize = 0;
    while i < name.len()
        invariant
            0 <= i <= name.len(),
            forall|k: int| 0 <= k < i ==> valid_name_byte(name@[k]),
        decreases name.len() - i,
    {
        let b = name[i];
        if !((65 <= b && b <= 90) || (97 <= b && b <= 122) || (48 <= b && b <= 57) || b == 95) {
            return Err(ApiError::InvalidInput);
        }
        i += 1;
    }
    Ok(())
}

/// Appends the decimal form of `n` (at most two digits suffice for the
/// limits the endpoint accepts).
fn push_decimal(out: &mut Vec<u8>, n: u32)
    requires
        n < 100,
    ensures
        final(out)@ == old(out)@ + spec_decimal(n as int),
{
    let ghost orig = out@;
    if n < 10 {
        out.push(48 + n as u8);
        assert(out@ =~= orig + spec_decimal(n as int));
    } else {
        let d1 = (n / 10) as u8;
        let d2 = (n % 10) as u8;
        out.push(48 + d1);
        out.push(48 + d2);
        assert(spec_decimal(n as int) == spec_decimal(n as int / 10) + seq![
            (48 + n as int % 10) as u8,
        ]);
        assert(out@ =~= orig + spec_decimal(n as int));
    }
}

/// Builds the upstream top-posts URL for a validated name and a
/// range-checked limit.
pub fn build_top_url(name: &Vec<u8>, limit: i32) -> (r: Vec<u8>)
    requires
        1 <= limit <= 50,
    ensures
        r@ == spec_top_url(name@, limit as int),
{
    let mut out = "https://www.reddit.com/r/".as_bytes_vec();
    append_bytes(&mut out, name);
    let mid = "/top.json?limit=".as_bytes_vec();
    append_bytes(&mut out, &mid);
    push_decimal(&mut out, limit as u32);
    proof {
        assert(out@ =~= spec_top_url(name@, limit as int));
    }
    out
}

/// Validates the requested community name (the fixed one when absent) and
/// builds the upstream URL; an ill-formed name is rejected with
/// `InvalidInput` and no URL exists for it.  The limit must already be
/// range-checked by the caller.
pub fn prepare_fetch(name: Option<Vec<u8>>, limit: i32) -> (r: Result<Vec<u8>, ApiError>)
    requires
        1 <= limit <= 50,
    ensures
        r is Ok <==> valid_name(
            spec_target_name(
                match name {
                    Some(ref n) => Some(n@),
                    None => None,
                },
            ),
        ),
        r matches Ok(u) ==> u@ == spec_top_url(
            spec_target_name(
                match name {
                    Some(ref n) => Some(n@),
                    None => None,
                },
            ),
            limit as int,
        ),
        r is Err ==> r == Err::<Vec<u8>, ApiError>(ApiError::InvalidInput),
{
    let target: Vec<u8> = match name {
        Some(n) => n,
        None => "MemesBR".as_bytes_vec(),
    };
    match validate_name(&target) {
        Ok(()) => Ok(build_top_url(&target, limit)),
        Err(e) => Err(e),
    }
}

/// Classifies an upstream HTTP status code: a success status lets the
/// pipeline go on, any other is an upstream failure carrying that code.
pub fn classify_status(code: u16) -> (r: Result<(), ApiError>)
    ensures
        r is Ok <==> 200 <= code < 300,
        !(200 <= code < 300) ==> r == Err::<(), ApiError>(ApiError::UpstreamError(code)),
{
    if 200 <= code && code < 300 {
        Ok(())
    } else {
        Err(ApiError::UpstreamError(code))
    }
}

} // verus!
