//! The value a handler resolves a request to: a status code, an optional
//! `Location` header, and a body.

use vstd::prelude::*;

verus! {

/// One terminal HTTP response, as plain values.
pub struct Reply {
    pub status: u16,
    pub location: Option<String>,
    pub body: String,
}

/// `r` carries `status` and `body`, with no `Location` header.
pub open spec fn reply_is(r: Reply, status: int, body: Seq<char>) -> bool {
    &&& r.status == status
    &&& r.location is None
    &&& r.body@ == body
}

impl Reply {
    /// An empty-bodied response with the given status and no header.
    pub fn empty(status: u16) -> (r: Reply)
        ensures
            reply_is(r, status as int, Seq::<char>::empty()),
    {
        Reply { status, location: None, body: String::new() }
    }
}

} // verus!
