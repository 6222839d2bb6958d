//! The per-connection pipeline: the bytes of one read become either finished
//! response bytes, a file-store action for the caller to perform, or an
//! abort. Routing errors are translated here to a 404 response; parsing
//! errors abort the connection without a response, as the error taxonomy
//! prescribes. Every connection is independent: nothing here holds state
//! across calls.

use vstd::prelude::*;
use crate::bytes::SLASH;
use crate::err::HttpError;
use crate::request::{RequestView, parse_request, parse_spec};
use crate::response::{build_response, spec_response};
use crate::route::{RoutePlan, RoutePlanView, Served, ServedView, route, route_spec};

verus! {

/// What the connection must do after one request was read.
#[derive(Debug, PartialEq, Eq)]
pub enum Step {
    /// Write these bytes back and close.
    Respond(Vec<u8>),
    /// Read the file at this path relative to the served directory, turn the
    /// outcome into an intent with `read_outcome`, build and write it.
    FileRead(Vec<u8>),
    /// Write the content to this path relative to the served directory, turn
    /// the outcome into an intent with `write_outcome`, build and write it.
    FileWrite(Vec<u8>, Vec<u8>),
    /// A parse error: close the connection without a response.
    Abort(HttpError),
}

/// The mathematical shape of a step.
#[verifier::ext_equal]
pub enum StepView {
    Respond(Seq<u8>),
    FileRead(Seq<u8>),
    FileWrite(Seq<u8>, Seq<u8>),
    Abort(HttpError),
}

impl View for Step {
    type V = StepView;

    open spec fn view(&self) -> StepView {
        match self {
            Step::Respond(b) => StepView::Respond(b@),
            Step::FileRead(p) => StepView::FileRead(p@),
            Step::FileWrite(p, c) => StepView::FileWrite(p@, c@),
            Step::Abort(e) => StepView::Abort(*e),
        }
    }
}

/// The step owed for one request buffer: parse, route, and either serialize
/// the intent (an unknown route serializes as 404) or hand back the file
/// action.
pub open spec fn step_of(s: Seq<u8>) -> StepView {
    match parse_spec(s) {
        Err(e) => StepView::Abort(e),
        Ok(req) => match route_spec(req.method, req.path, req.headers, req.body) {
            Err(_) => StepView::Respond(spec_response(ServedView::NotFound)),
            Ok(RoutePlanView::Reply(sv)) => StepView::Respond(spec_response(sv)),
            Ok(RoutePlanView::ReadFile(p)) => StepView::FileRead(p),
            Ok(RoutePlanView::WriteFile(p, c)) => StepView::FileWrite(p, c),
        },
    }
}

/// Handles the bytes of one request.
pub fn handle_request(buf: &[u8]) -> (r: Step)
    ensures
        r@ == step_of(buf@),
{
    let req = match parse_request(buf) {
        Ok(req) => req,
        Err(e) => {
            return Step::Abort(e);
        },
    };
    match route(req) {
        Err(_) => Step::Respond(build_response(Served::NotFound)),
        Ok(RoutePlan::Reply(s)) => Step::Respond(build_response(s)),
        Ok(RoutePlan::ReadFile(p)) => Step::FileRead(p),
        Ok(RoutePlan::WriteFile(p, c)) => Step::FileWrite(p, c),
    }
}

/// The filesystem path of a served file: the configured root, a slash, and
/// the route's relative path.
pub fn resolve_path(dir: &[u8], rel: &[u8]) -> (r: Vec<u8>)
    ensures
        r@ == dir@ + seq![SLASH] + rel@,
{
    let mut v: Vec<u8> = Vec::new();
    crate::bytes::push_all(&mut v, dir);
    v.push(SLASH);
    crate::bytes::push_all(&mut v, rel);
    proof {
        assert(v@ =~= dir@ + seq![SLASH] + rel@);
    }
    v
}

} // verus!
