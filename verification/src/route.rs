//! The router: a method, a path and the header table pick one of a fixed set
//! of behaviors. The path splits on `/`; segment 1 names the route family and
//! the remaining segments, rejoined with `/`, are its argument. Reading or
//! writing a served file is returned as an action for the caller to perform;
//! everything else is already a finished route intent.

use vstd::prelude::*;
use crate::bytes::{
    SLASH, join_with, split_on, split_bytes, join_from, eq_bytes, views_of, lemma_split_nonempty,
};
use crate::err::HttpError;
use crate::headers::{Encoding, Header, HeaderView};
use crate::literals::{lit_echo, lit_files, lit_user_agent, vec_echo, vec_files, vec_user_agent};
use crate::request::{Method, Request};

verus! {

/// A route intent: the abstract outcome of routing, decoupled from its
/// serialized byte form.
#[derive(Debug, PartialEq, Eq)]
pub enum Served {
    /// 200 with no body and no Content-Length header.
    Empty,
    /// 200, `text/plain`.
    Text(Vec<u8>),
    /// 200, `application/octet-stream`.
    Binary(Vec<u8>),
    /// 200, `text/plain`, body gzip-compressed by the response builder.
    Compressed(Vec<u8>),
    /// 404.
    NotFound,
    /// 201.
    Created,
    /// 500.
    ServerError,
}

/// The mathematical shape of a route intent.
#[verifier::ext_equal]
pub enum ServedView {
    Empty,
    Text(Seq<u8>),
    Binary(Seq<u8>),
    Compressed(Seq<u8>),
    NotFound,
    Created,
    ServerError,
}

impl View for Served {
    type V = ServedView;

    open spec fn view(&self) -> ServedView {
        match self {
            Served::Empty => ServedView::Empty,
            Served::Text(c) => ServedView::Text(c@),
            Served::Binary(c) => ServedView::Binary(c@),
            Served::Compressed(c) => ServedView::Compressed(c@),
            Served::NotFound => ServedView::NotFound,
            Served::Created => ServedView::Created,
            Served::ServerError => ServedView::ServerError,
        }
    }
}

/// What a routed request asks of the connection: either answer with an
/// intent, or touch the file store first.
#[derive(Debug, PartialEq, Eq)]
pub enum RoutePlan {
    /// Answer directly.
    Reply(Served),
    /// Read the file at this path relative to the served directory; the
    /// outcome goes through `read_outcome`.
    ReadFile(Vec<u8>),
    /// Write the content to this path relative to the served directory; the
    /// outcome goes through `write_outcome`.
    WriteFile(Vec<u8>, Vec<u8>),
}

/// The mathematical shape of a route plan.
#[verifier::ext_equal]
pub enum RoutePlanView {
    Reply(ServedView),
    ReadFile(Seq<u8>),
    WriteFile(Seq<u8>, Seq<u8>),
}

impl View for RoutePlan {
    type V = RoutePlanView;

    open spec fn view(&self) -> RoutePlanView {
        match self {
            RoutePlan::Reply(s) => RoutePlanView::Reply(s@),
            RoutePlan::ReadFile(p) => RoutePlanView::ReadFile(p@),
            RoutePlan::WriteFile(p, c) => RoutePlanView::WriteFile(p@, c@),
        }
    }
}

/// The view of a routing result.
pub open spec fn plan_view(r: Result<RoutePlan, HttpError>) -> Result<RoutePlanView, HttpError> {
    match r {
        Ok(p) => Ok(p@),
        Err(e) => Err(e),
    }
}

/// Whether the client declared willingness to receive gzip.
pub open spec fn accepts_gzip(h: HeaderView) -> bool {
    h.accept_encoding.contains(Encoding::Gzip)
}

/// The argument of a route: the path's segments after the family, rejoined
/// with `/`.
pub open spec fn tail_of(segs: Seq<Seq<u8>>) -> Seq<u8> {
    join_with(segs.skip(2), SLASH)
}

/// Routing a `GET`: segment 1 dispatches over the four known families — the
/// root, `echo`, `user-agent` and `files` — and any other value is
/// `UnknownRoute`, never a silent fall-through.
pub open spec fn route_get(path: Seq<u8>, h: HeaderView) -> Result<RoutePlanView, HttpError> {
    let segs = split_on(path, SLASH);
    if segs.len() < 2 {
        Err(HttpError::UnknownRoute)
    } else if segs[1] == Seq::<u8>::empty() {
        Ok(RoutePlanView::Reply(ServedView::Empty))
    } else if segs[1] == lit_echo() {
        if segs.len() == 2 {
            Ok(RoutePlanView::Reply(ServedView::Empty))
        } else if accepts_gzip(h) {
            Ok(RoutePlanView::Reply(ServedView::Compressed(tail_of(segs))))
        } else {
            Ok(RoutePlanView::Reply(ServedView::Text(tail_of(segs))))
        }
    } else if segs[1] == lit_user_agent() {
        Ok(
            RoutePlanView::Reply(
                ServedView::Text(
                    match h.user_agent {
                        Some(u) => u,
                        None => Seq::empty(),
                    },
                ),
            ),
        )
    } else if segs[1] == lit_files() {
        Ok(RoutePlanView::ReadFile(tail_of(segs)))
    } else {
        Err(HttpError::UnknownRoute)
    }
}

/// Routing a `POST`: only the `files` family is meaningful; the body goes to
/// the file named by the remaining segments.
pub open spec fn route_post(path: Seq<u8>, body: Seq<u8>) -> Result<RoutePlanView, HttpError> {
    let segs = split_on(path, SLASH);
    if segs.len() >= 2 && segs[1] == lit_files() {
        Ok(RoutePlanView::WriteFile(tail_of(segs), body))
    } else {
        Err(HttpError::UnknownRoute)
    }
}

/// Routing any request.
pub open spec fn route_spec(m: Method, path: Seq<u8>, h: HeaderView, body: Seq<u8>) -> Result<
    RoutePlanView,
    HttpError,
> {
    match m {
        Method::Get => route_get(path, h),
        Method::Post => route_post(path, body),
    }
}

/// Whether the table accepts gzip.
pub fn accepts_gzip_exec(header: &Header) -> (r: bool)
    ensures
        r == accepts_gzip(header@),
{
    let n = header.accept_encoding.len();
    let mut i: usize = 0;
    while i < n
        invariant
            i <= n,
            n == header.accept_encoding@.len(),
            forall|k: int| 0 <= k < i ==> header.accept_encoding@[k] != Encoding::Gzip,
        decreases n - i,
    {
        if matches!(header.accept_encoding[i], Encoding::Gzip) {
            return true;
        }
        i = i + 1;
    }
    false
}

/// Routes a `GET` path against the header table.
pub fn handle_path(path: &[u8], header: &Header) -> (r: Result<RoutePlan, HttpError>)
    ensures
        plan_view(r) == route_get(path@, header@),
{
    let segs = split_bytes(path, SLASH);
    proof {
        lemma_split_nonempty(path@, SLASH);
        assert forall|k: int| 0 <= k < segs@.len() implies views_of(segs@)[k] == segs@[k]@ by {}
    }
    if segs.len() < 2 {
        return Err(HttpError::UnknownRoute);
    }
    let echo_lit = vec_echo();
    let ua_lit = vec_user_agent();
    let files_lit = vec_files();
    if segs[1].len() == 0 {
        proof {
            assert(segs@[1]@ =~= Seq::<u8>::empty());
        }
        Ok(RoutePlan::Reply(Served::Empty))
    } else if eq_bytes(segs[1].as_slice(), echo_lit.as_slice()) {
        if segs.len() == 2 {
            Ok(RoutePlan::Reply(Served::Empty))
        } else {
            let text = join_from(&segs, 2, SLASH);
            if accepts_gzip_exec(header) {
                Ok(RoutePlan::Reply(Served::Compressed(text)))
            } else {
                Ok(RoutePlan::Reply(Served::Text(text)))
            }
        }
    } else if eq_bytes(segs[1].as_slice(), ua_lit.as_slice()) {
        let ua: Vec<u8> = match &header.user_agent {
            Some(u) => vstd::slice::slice_to_vec(u.as_slice()),
            None => Vec::new(),
        };
        Ok(RoutePlan::Reply(Served::Text(ua)))
    } else if eq_bytes(segs[1].as_slice(), files_lit.as_slice()) {
        let rel = join_from(&segs, 2, SLASH);
        Ok(RoutePlan::ReadFile(rel))
    } else {
        Err(HttpError::UnknownRoute)
    }
}

/// Routes a `POST` path with its body.
pub fn handle_post(path: &[u8], body: Vec<u8>) -> (r: Result<RoutePlan, HttpError>)
    ensures
        plan_view(r) == route_post(path@, body@),
{
    let segs = split_bytes(path, SLASH);
    proof {
        lemma_split_nonempty(path@, SLASH);
        assert forall|k: int| 0 <= k < segs@.len() implies views_of(segs@)[k] == segs@[k]@ by {}
    }
    let files_lit = vec_files();
    if segs.len() >= 2 && eq_bytes(segs[1].as_slice(), files_lit.as_slice()) {
        let rel = join_from(&segs, 2, SLASH);
        Ok(RoutePlan::WriteFile(rel, body))
    } else {
        Err(HttpError::UnknownRoute)
    }
}

/// Routes a parsed request, consuming its body.
pub fn route(req: Request) -> (r: Result<RoutePlan, HttpError>)
    ensures
        plan_view(r) == route_spec(req@.method, req@.path, req@.headers, req@.body),
{
    match req.method {
        Method::Get => handle_path(req.path.as_slice(), &req.headers),
        Method::Post => handle_post(req.path.as_slice(), req.body),
    }
}

/// The intent of a finished file read: content that is valid text becomes a
/// binary body; content that is not, like any failure (`NotFoundError` above
/// all), reads as a missing file.
pub fn read_outcome(found: Result<Vec<u8>, HttpError>) -> (s: Served)
    ensures
        match found {
            Ok(c) => s@ == (if vstd::utf8::valid_utf8(c@) {
                ServedView::Binary(c@)
            } else {
                ServedView::NotFound
            }),
            Err(_) => s@ == ServedView::NotFound,
        },
{
    match found {
        Ok(c) => {
            if crate::request::utf8_check(c.as_slice()) {
                Served::Binary(c)
            } else {
                Served::NotFound
            }
        },
        Err(_) => Served::NotFound,
    }
}

/// The intent of a finished file write: created on success, a server error
/// on an `IoError`.
pub fn write_outcome(done: Result<(), HttpError>) -> (s: Served)
    ensures
        match done {
            Ok(_) => s@ == ServedView::Created,
            Err(_) => s@ == ServedView::ServerError,
        },
{
    match done {
        Ok(_) => Served::Created,
        Err(_) => Served::ServerError,
    }
}

} // verus!
