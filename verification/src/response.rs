//! The response builder: a route intent becomes the exact bytes of an
//! HTTP/1.1 response. Every header line ends with CRLF, one more CRLF parts
//! the headers from the body, and a body built from a text or file intent is
//! followed by one final CRLF; a compressed body ends the response as it is.
//! Content-Length always measures the final body — after compression, never
//! before.

use vstd::prelude::*;
use crate::bytes::{CR, LF, push_all};
use crate::gzip::{gzip_compress, gzip_of};
use crate::literals::{
    lit_content_encoding, lit_content_length, lit_content_type, lit_gzip, lit_octet_stream,
    lit_status_200, lit_status_201, lit_status_404, lit_status_500, lit_text_plain,
    vec_content_encoding, vec_content_length, vec_content_type, vec_gzip, vec_octet_stream,
    vec_status_200, vec_status_201, vec_status_404, vec_status_500, vec_text_plain,
};
use crate::route::{Served, ServedView};

verus! {

/// The line terminator pair.
pub open spec fn crlf() -> Seq<u8> {
    seq![13u8, 10u8]
}

/// The decimal digits of `n`, most significant first, no sign, no padding.
pub open spec fn dec_of(n: nat) -> Seq<u8>
    decreases n,
{
    if n < 10 {
        seq![(48 + n) as u8]
    } else {
        dec_of(n / 10) + seq![(48 + n % 10) as u8]
    }
}

/// The decimal digits of `n`.
pub fn dec_bytes(n: usize) -> (r: Vec<u8>)
    ensures
        r@ == dec_of(n as nat),
    decreases n,
{
    if n < 10 {
        let mut v: Vec<u8> = Vec::new();
        v.push(48 + (n as u8));
        proof {
            assert(v@ =~= dec_of(n as nat));
        }
        v
    } else {
        proof {
            assert(n / 10 < n) by (nonlinear_arith)
                requires
                    n >= 10,
            ;
        }
        let mut r = dec_bytes(n / 10);
        r.push(48 + ((n % 10) as u8));
        proof {
            assert(r@ =~= dec_of(n as nat));
        }
        r
    }
}

/// The view of an optional encoding argument.
pub open spec fn opt_bytes_view(o: Option<&[u8]>) -> Option<Seq<u8>> {
    match o {
        Some(e) => Some(e@),
        None => None,
    }
}

/// The view of an optional length override.
pub open spec fn opt_len_view(o: Option<usize>) -> Option<nat> {
    match o {
        Some(l) => Some(l as nat),
        None => None,
    }
}

/// The header block of a 200 response carrying a body: the status line, the
/// Content-Encoding line when an encoding was applied, then Content-Type,
/// then Content-Length, each CRLF-terminated.
pub open spec fn spec_content_header(ct: Seq<u8>, enc: Option<Seq<u8>>, len: nat) -> Seq<u8> {
    lit_status_200() + crlf() + (match enc {
        Some(e) => lit_content_encoding() + e + crlf(),
        None => Seq::<u8>::empty(),
    }) + lit_content_type() + ct + crlf() + lit_content_length() + dec_of(len) + crlf()
}

/// A full 200 response with a body: the header block, a blank line, the body
/// and one final CRLF. The advertised length is the body's byte length
/// unless overridden.
pub open spec fn spec_build_content(
    content: Seq<u8>,
    ct: Seq<u8>,
    enc: Option<Seq<u8>>,
    cl: Option<nat>,
) -> Seq<u8> {
    spec_content_header(
        ct,
        enc,
        match cl {
            Some(l) => l,
            None => content.len(),
        },
    ) + crlf() + content + crlf()
}

/// A response with nothing but a status line.
pub open spec fn spec_bare_response(status: Seq<u8>) -> Seq<u8> {
    status + crlf() + crlf()
}

/// The exact bytes of the response for a route intent. A compressed intent
/// carries `gzip_of` its text, and its Content-Length measures those
/// compressed bytes.
pub open spec fn spec_response(v: ServedView) -> Seq<u8> {
    match v {
        ServedView::Empty => spec_bare_response(lit_status_200()),
        ServedView::Text(c) => spec_build_content(
            c,
            lit_text_plain(),
            Option::<Seq<u8>>::None,
            Option::<nat>::None,
        ),
        ServedView::Binary(c) => spec_build_content(
            c,
            lit_octet_stream(),
            Option::<Seq<u8>>::None,
            Option::<nat>::None,
        ),
        ServedView::Compressed(c) => spec_content_header(
            lit_text_plain(),
            Some(lit_gzip()),
            gzip_of(c).len(),
        ) + crlf() + gzip_of(c),
        ServedView::NotFound => spec_bare_response(lit_status_404()),
        ServedView::Created => spec_bare_response(lit_status_201()),
        ServedView::ServerError => spec_bare_response(lit_status_500()),
    }
}

/// The header block of a 200 response: Content-Encoding when given, then
/// Content-Type, then Content-Length.
pub fn build_content_header(
    content_type: &[u8],
    encoding: Option<&[u8]>,
    content_length: usize,
) -> (r: Vec<u8>)
    ensures
        r@ == spec_content_header(
            content_type@,
            opt_bytes_view(encoding),
            content_length as nat,
        ),
{
    let mut v = vec_status_200();
    v.push(CR);
    v.push(LF);
    match encoding {
        Some(e) => {
            let mut ce = vec_content_encoding();
            v.append(&mut ce);
            push_all(&mut v, e);
            v.push(CR);
            v.push(LF);
        },
        None => {},
    }
    let mut ct = vec_content_type();
    v.append(&mut ct);
    push_all(&mut v, content_type);
    v.push(CR);
    v.push(LF);
    let mut cl = vec_content_length();
    v.append(&mut cl);
    let mut digits = dec_bytes(content_length);
    v.append(&mut digits);
    v.push(CR);
    v.push(LF);
    proof {
        assert(v@ =~= spec_content_header(
            content_type@,
            opt_bytes_view(encoding),
            content_length as nat,
        ));
    }
    v
}

/// A full 200 response around `content`. The advertised length is
/// `content_length` when given, else the body's own byte length.
pub fn build_content(
    content: &[u8],
    content_type: &[u8],
    encoding: Option<&[u8]>,
    content_length: Option<usize>,
) -> (r: Vec<u8>)
    ensures
        r@ == spec_build_content(
            content@,
            content_type@,
            opt_bytes_view(encoding),
            opt_len_view(content_length),
        ),
{
    let len = match content_length {
        Some(l) => l,
        None => content.len(),
    };
    let mut v = build_content_header(content_type, encoding, len);
    v.push(CR);
    v.push(LF);
    push_all(&mut v, content);
    v.push(CR);
    v.push(LF);
    proof {
        assert(v@ =~= spec_build_content(
            content@,
            content_type@,
            opt_bytes_view(encoding),
            opt_len_view(content_length),
        ));
    }
    v
}

/// A response with nothing but the given status line.
fn bare_response(status: Vec<u8>) -> (r: Vec<u8>)
    ensures
        r@ == spec_bare_response(status@),
{
    let mut v: Vec<u8> = Vec::new();
    push_all(&mut v, status.as_slice());
    v.push(CR);
    v.push(LF);
    v.push(CR);
    v.push(LF);
    proof {
        assert(v@ =~= spec_bare_response(status@));
    }
    v
}

/// Serializes a route intent into the exact bytes that go on the wire,
/// compressing the body of a compressed intent.
pub fn build_response(intent: Served) -> (r: Vec<u8>)
    ensures
        r@ == spec_response(intent@),
{
    match intent {
        Served::Empty => bare_response(vec_status_200()),
        Served::Text(c) => {
            let tp = vec_text_plain();
            build_content(c.as_slice(), tp.as_slice(), None, None)
        },
        Served::Binary(c) => {
            let os = vec_octet_stream();
            build_content(c.as_slice(), os.as_slice(), None, None)
        },
        Served::Compressed(c) => {
            let mut z = gzip_compress(c.as_slice());
            let tp = vec_text_plain();
            let gz = vec_gzip();
            let mut v = build_content_header(tp.as_slice(), Some(gz.as_slice()), z.len());
            v.push(CR);
            v.push(LF);
            v.append(&mut z);
            proof {
                assert(v@ =~= spec_response(ServedView::Compressed(c@)));
            }
            v
        },
        Served::NotFound => bare_response(vec_status_404()),
        Served::Created => bare_response(vec_status_201()),
        Served::ServerError => bare_response(vec_status_500()),
    }
}

} // verus!
