//! The wall clock: the one place the library reads the outside world.
//!
//! The health report carries a timestamp. Dispatching takes it as a
//! plain argument; the convenience entry point here reads the clock once
//! and hands the rendering on, so its result is the dispatch of the
//! request under some instant of the clock.

use vstd::prelude::*;

use crate::dispatch::{invoke, spec_invoke, Request, Response};
use crate::registry::Registry;

verus! {

/// Relies on `chrono::Utc::now` and `chrono::DateTime::to_rfc3339`: the
/// current UTC time rendered in RFC 3339 form. The rendering is never
/// empty; nothing more is assumed, since the result depends on the clock.
#[verifier::external_body]
pub fn now_rfc3339() -> (r: String)
    ensures
        r@.len() > 0,
{
    chrono::Utc::now().to_rfc3339()
}

/// Resolves, validates and runs `req`, stamping health reports with the
/// current wall-clock timestamp: whatever instant the clock reports, the
/// response is the dispatch of `req` under that timestamp.
pub fn invoke_now(reg: &Registry, req: Request) -> (resp: Response)
    ensures
        exists|now: Seq<char>| resp.view() == spec_invoke(reg.view(), req.view(), now),
{
    let now = now_rfc3339();
    let resp = invoke(reg, req, &now);
    proof {
        assert(resp.view() == spec_invoke(reg.view(), req.view(), now@));
    }
    resp
}

} // verus!
