//! The id that follows a request through the gateway and comes back in
//! the response.

use vstd::prelude::*;
use crate::foreign::{is_header_value, random_uuid};
use crate::text::owned;

verus! {

/// The id of a request: the one it came with, or else `fresh`.
pub open spec fn request_id_of(inbound: Option<Seq<char>>, fresh: Seq<char>) -> Seq<char> {
    match inbound {
        Some(id) => id,
        None => fresh,
    }
}

/// The id of a request: the one it came with, or else `fresh`.
pub fn request_id_or(inbound: Option<&str>, fresh: String) -> (id: String)
    ensures
        id@ == request_id_of(
            match inbound {
                Some(text) => Some(text@),
                None => None,
            },
            fresh@,
        ),
{
    match inbound {
        Some(text) => owned(text),
        None => fresh,
    }
}

/// Gives a request its id: the one it came with in its `x-request-id`
/// header, or else a fresh one. A fresh id is a random identifier of 36
/// characters that may stand as a header's value.
pub fn assign_request_id(inbound: Option<&str>) -> (id: String)
    ensures
        inbound matches Some(text) ==> id@ == text@,
        inbound is None ==> id@.len() == 36 && is_header_value(id@),
{
    match inbound {
        Some(text) => owned(text),
        None => random_uuid(),
    }
}

} // verus!
