//! The two fixed routes: a greeting and a redirect.

use vstd::prelude::*;

use crate::reply::Reply;

verus! {

/// The greeting route: status 200 with the fixed greeting body.
pub fn hello_bird() -> (r: Reply)
    ensures
        r.status == 200,
        r.location is None,
        r.body@ == "Hello, bird!"@,
{
    Reply { status: 200, location: None, body: "Hello, bird!".to_owned() }
}

/// The redirect route: status 302 (Found) with the `Location` header set to
/// the fixed URL and an empty body.
pub fn seek_redirect() -> (r: Reply)
    ensures
        r.status == 302,
        r.location matches Some(u) && u@ == "https://www.youtube.com/watch?v=9Gc4QTqslN4"@,
        r.body@ == Seq::<char>::empty(),
{
    Reply {
        status: 302,
        location: Some("https://www.youtube.com/watch?v=9Gc4QTqslN4".to_owned()),
        body: String::new(),
    }
}

} // verus!
