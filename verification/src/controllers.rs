//! The route handlers, grouped as the routes are.

pub mod auth;
pub mod posts;
pub mod search;
pub mod sessions;
pub mod users;

use vstd::prelude::*;

use crate::layers::Context;
use crate::web::{Request, Response, ResponseBody, Status};

verus! {

/// What the banner route answers.
pub open spec fn home_outcome(status: Status, rbody: ResponseBody) -> bool {
    &&& status == Status::Okay
    &&& (rbody matches ResponseBody::Home { name, version } && name@ == "PlaatBook"@ && version@
        == "0.1.0"@)
}

/// The service banner.
pub fn home(_req: &Request, _ctx: &Context) -> (res: Response)
    ensures
        home_outcome(res.status, res.body),
{
    Response::new().body(
        ResponseBody::Home { name: "PlaatBook".to_owned(), version: "0.1.0".to_owned() },
    )
}

/// What the fallback answers.
pub open spec fn not_found_outcome(status: Status, rbody: ResponseBody) -> bool {
    &&& status == Status::NotFound
    &&& (rbody matches ResponseBody::Text(t) && t@ == "404 Not Found"@)
}

/// The fallback for an unmatched route.
pub fn not_found(_req: &Request, _ctx: &Context) -> (res: Response)
    ensures
        not_found_outcome(res.status, res.body),
{
    Response::new().status(Status::NotFound).text("404 Not Found")
}

} // verus!
