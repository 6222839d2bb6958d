//! The request parser: one buffer read from a connection becomes a
//! structured request — method, path, header table and body — or one of the
//! parse errors.

use vstd::prelude::*;
use vstd::utf8::valid_utf8;
use crate::bytes::{
    NUL, SP, drop_trailing, line_content, line_rest, split_on, take_line, trim_trailing,
    split_bytes, eq_bytes, views_of, lemma_split_nonempty,
};
use crate::err::HttpError;
use crate::headers::{
    HEADER_LINE_LIMIT, Header, HeaderView, empty_header, scan_headers, scan_headers_exec,
};
use crate::literals::{lit_get, lit_post, vec_get, vec_post};

verus! {

/// The two methods this server understands.
#[derive(Debug, Clone, Copy, PartialEq, Eq, Structural)]
pub enum Method {
    Get,
    Post,
}

/// One parsed request. Built once per connection and read-only afterwards.
#[derive(Debug)]
pub struct Request {
    pub method: Method,
    pub path: Vec<u8>,
    pub headers: Header,
    pub body: Vec<u8>,
}

/// The mathematical shape of a request.
#[verifier::ext_equal]
pub struct RequestView {
    pub method: Method,
    pub path: Seq<u8>,
    pub headers: HeaderView,
    pub body: Seq<u8>,
}

impl View for Request {
    type V = RequestView;

    open spec fn view(&self) -> RequestView {
        RequestView {
            method: self.method,
            path: self.path@,
            headers: self.headers@,
            body: self.body@,
        }
    }
}

/// Relies on `core::str::from_utf8`: it returns `Ok` exactly when the slice
/// is valid UTF-8, the property vstd's `valid_utf8` states.
#[verifier::external_body]
pub(crate) fn utf8_check(b: &[u8]) -> (r: bool)
    ensures
        r == valid_utf8(b@),
{
    core::str::from_utf8(b).is_ok()
}

/// The request read from the buffer `s`, after the method token: path is the
/// second token of the first line (empty when the line has only one), the
/// header table is scanned from the following lines, and the body is what
/// follows the header block, less the NUL padding of a fixed-size read.
pub open spec fn assembled(m: Method, s: Seq<u8>, toks: Seq<Seq<u8>>) -> RequestView {
    let scanned = scan_headers(line_rest(s), HEADER_LINE_LIMIT as nat, empty_header());
    RequestView {
        method: m,
        path: if toks.len() >= 2 {
            toks[1]
        } else {
            Seq::empty()
        },
        headers: scanned.0,
        body: drop_trailing(scanned.1, NUL),
    }
}

/// What parsing the buffer `s` gives: `EncodingError` exactly when `s` is not
/// valid UTF-8; else `EmptyRequest` exactly when the first line is empty;
/// else `UnsupportedMethod` exactly when the first token is neither `GET` nor
/// `POST`; else the request.
pub open spec fn parse_spec(s: Seq<u8>) -> Result<RequestView, HttpError> {
    if !valid_utf8(s) {
        Err(HttpError::EncodingError)
    } else {
        let l1 = line_content(s);
        if l1.len() == 0 {
            Err(HttpError::EmptyRequest)
        } else {
            let toks = split_on(l1, SP);
            if toks[0] == lit_get() {
                Ok(assembled(Method::Get, s, toks))
            } else if toks[0] == lit_post() {
                Ok(assembled(Method::Post, s, toks))
            } else {
                Err(HttpError::UnsupportedMethod)
            }
        }
    }
}

/// Parses one request buffer.
pub fn parse_request(buf: &[u8]) -> (r: Result<Request, HttpError>)
    ensures
        match r {
            Ok(req) => parse_spec(buf@) == Ok::<RequestView, HttpError>(req@),
            Err(e) => parse_spec(buf@) == Err::<RequestView, HttpError>(e),
        },
{
    if !utf8_check(buf) {
        return Err(HttpError::EncodingError);
    }
    proof {
        assert(buf@.skip(0) =~= buf@);
    }
    let (line1, after_line1) = take_line(buf, 0);
    if line1.len() == 0 {
        return Err(HttpError::EmptyRequest);
    }
    let toks = split_bytes(line1.as_slice(), SP);
    proof {
        lemma_split_nonempty(line1@, SP);
        assert(views_of(toks@)[0] == toks@[0]@);
        if toks@.len() >= 2 {
            assert(views_of(toks@)[1] == toks@[1]@);
        }
    }
    let get_lit = vec_get();
    let post_lit = vec_post();
    let method: Method;
    if eq_bytes(toks[0].as_slice(), get_lit.as_slice()) {
        method = Method::Get;
    } else if eq_bytes(toks[0].as_slice(), post_lit.as_slice()) {
        method = Method::Post;
    } else {
        return Err(HttpError::UnsupportedMethod);
    }
    let path: Vec<u8> = if toks.len() >= 2 {
        vstd::slice::slice_to_vec(toks[1].as_slice())
    } else {
        Vec::new()
    };
    let mut headers = Header::default();
    let body_from = scan_headers_exec(buf, after_line1, HEADER_LINE_LIMIT, &mut headers);
    let body = trim_trailing(vstd::slice::slice_subrange(buf, body_from, buf.len()), NUL);
    let req = Request { method, path, headers, body };
    proof {
        let toks_v = split_on(line_content(buf@), SP);
        assert(req@ =~= assembled(method, buf@, toks_v));
    }
    Ok(req)
}

} // verus!
