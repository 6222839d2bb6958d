//! The general properties of the router and the response builder, proved for
//! every input: what an echo path reflects, plain and compressed, and that
//! the file routes write and read one and the same relative path.

use vstd::prelude::*;
use vstd::utf8::{partial_valid_utf8, partial_valid_utf8_extend_ascii_block, valid_utf8};
use crate::bytes::{
    COMMA, CR, LF, SP, SLASH, NUL, drop_leading, drop_trailing, join_with, line_content,
    line_rest, lower_byte, lower_bytes, split_on, trim_matching, lemma_find_byte_at,
    lemma_split_head, lemma_split_no_sep, lemma_join_split,
};
use crate::connection::{StepView, step_of};
use crate::err::HttpError;
use crate::gzip::gzip_of;
use crate::headers::{
    Encoding, HEADER_LINE_LIMIT, HeaderView, classify_token, empty_header, header_line_applied,
    scan_headers,
};
use crate::literals::{
    lit_accept_encoding_name, lit_content_encoding, lit_content_length, lit_content_type,
    lit_echo, lit_files, lit_get, lit_gzip, lit_octet_stream, lit_post, lit_status_200,
    lit_text_plain,
};
use crate::request::{Method, RequestView, assembled, parse_spec};
use crate::response::{crlf, dec_of, spec_response};
use crate::route::{
    RoutePlanView, ServedView, accepts_gzip, route_get, route_post, route_spec, tail_of,
};

verus! {

/// The path `/echo/<t>`.
pub open spec fn echo_path(t: Seq<u8>) -> Seq<u8> {
    seq![SLASH] + lit_echo() + seq![SLASH] + t
}

/// The path `/files/<name>`.
pub open spec fn files_path(name: Seq<u8>) -> Seq<u8> {
    seq![SLASH] + lit_files() + seq![SLASH] + name
}

proof fn lemma_echo_no_slash()
    ensures
        !lit_echo().contains(SLASH),
{
    if lit_echo().contains(SLASH) {
        let _w = choose|j: int| 0 <= j < lit_echo().len() && lit_echo()[j] == SLASH;
        assert(lit_echo()[0] == 101);
        assert(lit_echo()[1] == 99);
        assert(lit_echo()[2] == 104);
        assert(lit_echo()[3] == 111);
    }
}

proof fn lemma_files_no_slash()
    ensures
        !lit_files().contains(SLASH),
{
    if lit_files().contains(SLASH) {
        let _w = choose|j: int| 0 <= j < lit_files().len() && lit_files()[j] == SLASH;
        assert(lit_files()[0] == 102);
        assert(lit_files()[1] == 105);
        assert(lit_files()[2] == 108);
        assert(lit_files()[3] == 101);
        assert(lit_files()[4] == 115);
    }
}

/// A path of the shape `/<family>/<arg>`, the family free of slashes, splits
/// into an empty first segment, the family, and the split of the argument.
proof fn lemma_segments_of(family: Seq<u8>, arg: Seq<u8>)
    requires
        !family.contains(SLASH),
    ensures
        split_on(seq![SLASH] + family + seq![SLASH] + arg, SLASH) == seq![
            Seq::<u8>::empty(),
            family,
        ] + split_on(arg, SLASH),
{
    let p = seq![SLASH] + family + seq![SLASH] + arg;
    let b1 = family + seq![SLASH] + arg;
    assert(p =~= Seq::<u8>::empty() + seq![SLASH] + b1);
    assert(!Seq::<u8>::empty().contains(SLASH));
    lemma_split_head(Seq::<u8>::empty(), b1, SLASH);
    lemma_split_head(family, arg, SLASH);
    assert(split_on(p, SLASH) =~~= seq![Seq::<u8>::empty(), family] + split_on(arg, SLASH));
}

/// For all text `t` free of the path separator: `GET /echo/<t>` with gzip
/// not among the accepted encodings routes to a plain text reply of exactly
/// `t`, and that reply serializes as status 200, `Content-Type: text/plain`,
/// `Content-Length` the decimal byte length of `t`, a blank line, and the
/// body exactly `t`.
pub proof fn theorem_echo_plain(t: Seq<u8>, h: HeaderView)
    requires
        !t.contains(SLASH),
        !accepts_gzip(h),
    ensures
        route_get(echo_path(t), h) == Ok::<RoutePlanView, HttpError>(
            RoutePlanView::Reply(ServedView::Text(t)),
        ),
        spec_response(ServedView::Text(t)) == lit_status_200() + crlf() + lit_content_type()
            + lit_text_plain() + crlf() + lit_content_length() + dec_of(t.len()) + crlf() + crlf()
            + t + crlf(),
{
    lemma_echo_no_slash();
    lemma_segments_of(lit_echo(), t);
    lemma_split_no_sep(t, SLASH);
    let segs = split_on(echo_path(t), SLASH);
    assert(segs =~~= seq![Seq::<u8>::empty(), lit_echo(), t]);
    assert(segs.skip(2) =~~= seq![t]);
    assert(tail_of(segs) == t);
    assert(spec_response(ServedView::Text(t)) =~= lit_status_200() + crlf() + lit_content_type()
        + lit_text_plain() + crlf() + lit_content_length() + dec_of(t.len()) + crlf() + crlf() + t
        + crlf());
}

/// For all text `t` free of the path separator: `GET /echo/<t>` with gzip
/// among the accepted encodings routes to a compressed reply of `t`, and
/// that reply serializes as status 200, `Content-Encoding: gzip`,
/// `Content-Type: text/plain`, a `Content-Length` that measures the
/// compressed bytes, a blank line, and the compressed bytes themselves. That
/// the compressed bytes decompress back to `t` is the compressor's side of
/// the bargain, exercised by the tests.
pub proof fn theorem_echo_gzip(t: Seq<u8>, h: HeaderView)
    requires
        !t.contains(SLASH),
        accepts_gzip(h),
    ensures
        route_get(echo_path(t), h) == Ok::<RoutePlanView, HttpError>(
            RoutePlanView::Reply(ServedView::Compressed(t)),
        ),
        spec_response(ServedView::Compressed(t)) == lit_status_200() + crlf()
            + lit_content_encoding() + lit_gzip() + crlf() + lit_content_type() + lit_text_plain()
            + crlf() + lit_content_length() + dec_of(gzip_of(t).len()) + crlf() + crlf() + gzip_of(
            t,
        ),
{
    lemma_echo_no_slash();
    lemma_segments_of(lit_echo(), t);
    lemma_split_no_sep(t, SLASH);
    let segs = split_on(echo_path(t), SLASH);
    assert(segs =~~= seq![Seq::<u8>::empty(), lit_echo(), t]);
    assert(segs.skip(2) =~~= seq![t]);
    assert(tail_of(segs) == t);
    assert(spec_response(ServedView::Compressed(t)) =~= lit_status_200() + crlf()
        + lit_content_encoding() + lit_gzip() + crlf() + lit_content_type() + lit_text_plain()
        + crlf() + lit_content_length() + dec_of(gzip_of(t).len()) + crlf() + crlf() + gzip_of(t));
}

/// A byte that may stand in echoed text when the whole pipeline is traced
/// from the raw request: printable ASCII that is neither the space that ends
/// the path token nor the slash that separates segments.
pub open spec fn token_byte(x: u8) -> bool {
    32 < x < 127 && x != SLASH
}

/// Text of token bytes only.
pub open spec fn token_text(t: Seq<u8>) -> bool {
    forall|i: int| 0 <= i < t.len() ==> token_byte(t[i])
}

/// Bytes of `"HTTP/1.1"`, the version token of a request line.
pub open spec fn http_version() -> Seq<u8> {
    seq![72u8, 84u8, 84u8, 80u8, 47u8, 49u8, 46u8, 49u8]
}

/// The token of a method on the request line.
pub open spec fn method_token(m: Method) -> Seq<u8> {
    match m {
        Method::Get => lit_get(),
        Method::Post => lit_post(),
    }
}

/// The request line `<METHOD> <path> HTTP/1.1`.
pub open spec fn request_line(m: Method, path: Seq<u8>) -> Seq<u8> {
    method_token(m) + seq![SP] + path + seq![SP] + http_version()
}

/// The raw bytes of a request: the request line, CRLF, and the rest of the
/// buffer — header lines, the blank line that ends them, and any body.
pub open spec fn raw_request(m: Method, path: Seq<u8>, rest: Seq<u8>) -> Seq<u8> {
    request_line(m, path) + seq![CR, LF] + rest
}

/// The raw bytes of a `GET /echo/<t>` request: the request line, CRLF, and
/// the header section `hdr` (its lines and the blank line that ends them).
pub open spec fn echo_request_with(t: Seq<u8>, hdr: Seq<u8>) -> Seq<u8> {
    raw_request(Method::Get, echo_path(t), hdr)
}

/// The raw bytes of a complete `GET /echo/<t>` request: request line, CRLF,
/// and the blank line that ends an empty header block.
pub open spec fn echo_request(t: Seq<u8>) -> Seq<u8> {
    echo_request_with(t, seq![CR, LF])
}

/// Bytes of `"Accept-Encoding:"` as a client typically sends it, capitals
/// included.
pub open spec fn accept_encoding_header() -> Seq<u8> {
    seq![
        65u8,
        99u8,
        99u8,
        101u8,
        112u8,
        116u8,
        45u8,
        69u8,
        110u8,
        99u8,
        111u8,
        100u8,
        105u8,
        110u8,
        103u8,
        58u8,
    ]
}

/// The header line `Accept-Encoding: gzip`.
pub open spec fn accept_gzip_line() -> Seq<u8> {
    accept_encoding_header() + seq![SP] + lit_gzip()
}

/// A sequence of ASCII bytes is valid UTF-8.
proof fn lemma_ascii_valid_utf8(s: Seq<u8>)
    requires
        forall|i: int| 0 <= i < s.len() ==> s[i] < 128,
    ensures
        valid_utf8(s),
{
    assert(s.subrange(0, 0) =~= Seq::<u8>::empty());
    assert(valid_utf8(s.subrange(0, 0)));
    assert(partial_valid_utf8(s, 0));
    partial_valid_utf8_extend_ascii_block(s, 0, s.len() as int);
    assert(s.subrange(0, s.len() as int) =~= s);
}

proof fn lemma_get_printable()
    ensures
        forall|i: int| 0 <= i < lit_get().len() ==> 32 < #[trigger] lit_get()[i] < 127,
{
    assert forall|i: int| 0 <= i < lit_get().len() implies 32 < #[trigger] lit_get()[i] < 127 by {
        assert(lit_get()[0] == 71);
        assert(lit_get()[1] == 69);
        assert(lit_get()[2] == 84);
    }
}

proof fn lemma_echo_printable()
    ensures
        forall|i: int| 0 <= i < lit_echo().len() ==> 32 < #[trigger] lit_echo()[i] < 127,
{
    assert forall|i: int| 0 <= i < lit_echo().len() implies 32 < #[trigger] lit_echo()[i]
        < 127 by {
        assert(lit_echo()[0] == 101);
        assert(lit_echo()[1] == 99);
        assert(lit_echo()[2] == 104);
        assert(lit_echo()[3] == 111);
    }
}

proof fn lemma_version_printable()
    ensures
        forall|i: int| 0 <= i < http_version().len() ==> 32 < #[trigger] http_version()[i] < 127,
{
    assert forall|i: int| 0 <= i < http_version().len() implies 32 < #[trigger] http_version()[i]
        < 127 by {
        assert(http_version()[0] == 72);
        assert(http_version()[1] == 84);
        assert(http_version()[2] == 84);
        assert(http_version()[3] == 80);
        assert(http_version()[4] == 47);
        assert(http_version()[5] == 49);
        assert(http_version()[6] == 46);
        assert(http_version()[7] == 49);
    }
}

proof fn lemma_post_printable()
    ensures
        forall|i: int| 0 <= i < lit_post().len() ==> 32 < #[trigger] lit_post()[i] < 127,
{
    assert forall|i: int| 0 <= i < lit_post().len() implies 32 < #[trigger] lit_post()[i]
        < 127 by {
        assert(lit_post()[0] == 80);
        assert(lit_post()[1] == 79);
        assert(lit_post()[2] == 83);
        assert(lit_post()[3] == 84);
    }
}

proof fn lemma_files_printable()
    ensures
        forall|i: int| 0 <= i < lit_files().len() ==> 32 < #[trigger] lit_files()[i] < 127,
{
    assert forall|i: int| 0 <= i < lit_files().len() implies 32 < #[trigger] lit_files()[i]
        < 127 by {
        assert(lit_files()[0] == 102);
        assert(lit_files()[1] == 105);
        assert(lit_files()[2] == 108);
        assert(lit_files()[3] == 101);
        assert(lit_files()[4] == 115);
    }
}

/// A path `/<family>/<arg>` of a printable family and token-text argument
/// holds only printable bytes without spaces.
proof fn lemma_family_path_printable(family: Seq<u8>, t: Seq<u8>)
    requires
        forall|i: int| 0 <= i < family.len() ==> 32 < #[trigger] family[i] < 127,
        token_text(t),
    ensures
        forall|i: int|
            #![trigger (seq![SLASH] + family + seq![SLASH] + t)[i]]
            0 <= i < (seq![SLASH] + family + seq![SLASH] + t).len() ==> 32 < (seq![SLASH] + family
                + seq![SLASH] + t)[i] < 127,
{
    let path = seq![SLASH] + family + seq![SLASH] + t;
    assert forall|i: int| 0 <= i < path.len() implies 32 < #[trigger] path[i] < 127 by {
        if i < 1 {
            assert(path[i] == SLASH);
        } else if i < 1 + family.len() {
            assert(path[i] == family[i - 1]);
        } else if i < 2 + family.len() {
            assert(path[i] == SLASH);
        } else {
            assert(path[i] == t[i - 2 - family.len()]);
        }
    }
}

/// Parsing a well-formed request: the first line is the request line, it
/// tokenizes into exactly method, path and version, and the rest of the
/// buffer is handed whole to the header scan.
proof fn lemma_parse_request(m: Method, path: Seq<u8>, hdr: Seq<u8>)
    requires
        forall|i: int| 0 <= i < path.len() ==> 32 < #[trigger] path[i] < 127,
        valid_utf8(hdr),
    ensures
        parse_spec(raw_request(m, path, hdr)) == Ok::<RequestView, HttpError>(
            RequestView {
                method: m,
                path,
                headers: scan_headers(hdr, HEADER_LINE_LIMIT as nat, empty_header()).0,
                body: drop_trailing(
                    scan_headers(hdr, HEADER_LINE_LIMIT as nat, empty_header()).1,
                    NUL,
                ),
            },
        ),
{
    lemma_get_printable();
    lemma_post_printable();
    lemma_version_printable();
    let mtok = method_token(m);
    let line1 = request_line(m, path);
    let buf = raw_request(m, path, hdr);
    assert(forall|i: int| 0 <= i < mtok.len() ==> 32 < #[trigger] mtok[i] < 127);

    // The request line holds only printable bytes.
    assert forall|i: int| 0 <= i < line1.len() implies 32 <= #[trigger] line1[i] < 127 by {
        if i < mtok.len() {
            assert(line1[i] == mtok[i]);
        } else if i < mtok.len() + 1 {
            assert(line1[i] == SP);
        } else if i < mtok.len() + 1 + path.len() {
            assert(line1[i] == path[i - mtok.len() - 1]);
        } else if i < mtok.len() + 2 + path.len() {
            assert(line1[i] == SP);
        } else {
            assert(line1[i] == http_version()[i - mtok.len() - 2 - path.len()]);
        }
    }

    // The request line with its CRLF is ASCII, so the whole buffer is valid
    // UTF-8.
    let head = line1 + seq![CR, LF];
    assert forall|i: int| 0 <= i < head.len() implies head[i] < 128 by {
        if i < line1.len() {
            assert(head[i] == line1[i]);
        } else {
            assert(head[i] == seq![CR, LF][i - line1.len()]);
            assert(i - line1.len() == 0 || i - line1.len() == 1);
        }
    }
    lemma_ascii_valid_utf8(head);
    vstd::utf8::valid_utf8_concat(head, hdr);
    assert(buf =~= head + hdr);
    assert(valid_utf8(buf));

    // The first line feed sits right after the request line's CR.
    let j = line1.len() as int + 1;
    assert(buf[j] == LF);
    assert forall|k: int| 0 <= k < j implies buf[k] != LF by {
        if k < line1.len() {
            assert(32 <= line1[k] < 127);
        } else {
            assert(buf[k] == CR);
        }
    }
    lemma_find_byte_at(buf, LF, 0, j);
    assert(buf[j - 1] == CR);
    assert(line_content(buf) =~= line1);
    assert(line_rest(buf) =~= hdr);

    // The request line splits into exactly method, path and version.
    assert forall|k: int| 0 <= k < mtok.len() implies mtok[k] != SP by {}
    assert(!mtok.contains(SP));
    assert forall|k: int| 0 <= k < path.len() implies path[k] != SP by {}
    assert(!path.contains(SP));
    assert forall|k: int| 0 <= k < http_version().len() implies http_version()[k] != SP by {}
    assert(!http_version().contains(SP));
    lemma_split_head(mtok, path + seq![SP] + http_version(), SP);
    assert(line1 =~= mtok + seq![SP] + (path + seq![SP] + http_version()));
    lemma_split_head(path, http_version(), SP);
    lemma_split_no_sep(http_version(), SP);
    let toks = split_on(line1, SP);
    assert(toks =~~= seq![mtok, path, http_version()]);

    // Parsing therefore gives the request with this method and path.
    assert(line1.len() != 0);
    assert(lit_get().len() != lit_post().len());
    assert(parse_spec(buf) == Ok::<RequestView, HttpError>(assembled(m, buf, toks)));
    assert(assembled(m, buf, toks) =~= RequestView {
        method: m,
        path,
        headers: scan_headers(hdr, HEADER_LINE_LIMIT as nat, empty_header()).0,
        body: drop_trailing(scan_headers(hdr, HEADER_LINE_LIMIT as nat, empty_header()).1, NUL),
    });
}

/// For all token text `t`, the whole pipeline on the raw bytes of
/// `GET /echo/<t> HTTP/1.1` with an empty header block: the connection step
/// is a finished response, and its bytes are status 200,
/// `Content-Type: text/plain`, `Content-Length` the byte length of `t`, a
/// blank line, and the body exactly `t` — parsing, routing and serialization
/// traced in one statement.
pub proof fn theorem_echo_pipeline(t: Seq<u8>)
    requires
        token_text(t),
    ensures
        step_of(echo_request(t)) == StepView::Respond(spec_response(ServedView::Text(t))),
        spec_response(ServedView::Text(t)) == lit_status_200() + crlf() + lit_content_type()
            + lit_text_plain() + crlf() + lit_content_length() + dec_of(t.len()) + crlf() + crlf()
            + t + crlf(),
{
    let rest = seq![CR, LF];
    assert forall|i: int| 0 <= i < rest.len() implies #[trigger] rest[i] < 128 by {
        assert(i == 0 || i == 1);
    }
    lemma_ascii_valid_utf8(rest);
    lemma_echo_printable();
    lemma_family_path_printable(lit_echo(), t);
    assert forall|i: int| 0 <= i < echo_path(t).len() implies 32 < #[trigger] echo_path(t)[i]
        < 127 by {
        assert(echo_path(t)[i] == (seq![SLASH] + lit_echo() + seq![SLASH] + t)[i]);
    }
    lemma_parse_request(Method::Get, echo_path(t), rest);

    // An empty header block: the scan stops at the blank line at once.
    lemma_find_byte_at(rest, LF, 0, 1);
    assert(line_content(rest) =~= Seq::<u8>::empty());
    assert(line_rest(rest) =~= Seq::<u8>::empty());
    assert(scan_headers(rest, HEADER_LINE_LIMIT as nat, empty_header()).0 == empty_header());
    assert(scan_headers(rest, HEADER_LINE_LIMIT as nat, empty_header()).1 =~= Seq::<u8>::empty());
    assert(drop_trailing(Seq::<u8>::empty(), NUL) =~= Seq::<u8>::empty());

    // Routing and serialization as the plain echo law states them.
    assert(!accepts_gzip(empty_header()));
    assert forall|k: int| 0 <= k < t.len() implies t[k] != SLASH by {}
    assert(!t.contains(SLASH));
    theorem_echo_plain(t, empty_header());
    assert(route_spec(Method::Get, echo_path(t), empty_header(), Seq::<u8>::empty()) == Ok::<
        RoutePlanView,
        HttpError,
    >(RoutePlanView::Reply(ServedView::Text(t))));
}

/// For all token text `t`, the whole pipeline on the raw bytes of
/// `GET /echo/<t> HTTP/1.1` carrying the one header line
/// `Accept-Encoding: gzip`: the header scan records the accepted encoding,
/// routing picks the compressed reply, and the response is status 200,
/// `Content-Encoding: gzip`, with `gzip_of(t)` as its body and its length.
pub proof fn theorem_echo_gzip_pipeline(t: Seq<u8>)
    requires
        token_text(t),
    ensures
        step_of(echo_request_with(t, accept_gzip_line() + seq![CR, LF, CR, LF]))
            == StepView::Respond(spec_response(ServedView::Compressed(t))),
        spec_response(ServedView::Compressed(t)) == lit_status_200() + crlf()
            + lit_content_encoding() + lit_gzip() + crlf() + lit_content_type() + lit_text_plain()
            + crlf() + lit_content_length() + dec_of(gzip_of(t).len()) + crlf() + crlf() + gzip_of(
            t,
        ),
{
    let aline = accept_gzip_line();
    let hdr = aline + seq![CR, LF, CR, LF];

    // The header line holds only printable bytes.
    assert forall|i: int| 0 <= i < accept_encoding_header().len() implies 32
        < #[trigger] accept_encoding_header()[i] < 127 by {
        assert(accept_encoding_header()[0] == 65);
        assert(accept_encoding_header()[1] == 99);
        assert(accept_encoding_header()[2] == 99);
        assert(accept_encoding_header()[3] == 101);
        assert(accept_encoding_header()[4] == 112);
        assert(accept_encoding_header()[5] == 116);
        assert(accept_encoding_header()[6] == 45);
        assert(accept_encoding_header()[7] == 69);
        assert(accept_encoding_header()[8] == 110);
        assert(accept_encoding_header()[9] == 99);
        assert(accept_encoding_header()[10] == 111);
        assert(accept_encoding_header()[11] == 100);
        assert(accept_encoding_header()[12] == 105);
        assert(accept_encoding_header()[13] == 110);
        assert(accept_encoding_header()[14] == 103);
        assert(accept_encoding_header()[15] == 58);
    }
    assert forall|i: int| 0 <= i < lit_gzip().len() implies 32 < #[trigger] lit_gzip()[i]
        < 127 by {
        assert(lit_gzip()[0] == 103);
        assert(lit_gzip()[1] == 122);
        assert(lit_gzip()[2] == 105);
        assert(lit_gzip()[3] == 112);
    }
    assert forall|i: int| 0 <= i < aline.len() implies 32 <= #[trigger] aline[i] < 127 by {
        if i < accept_encoding_header().len() {
            assert(aline[i] == accept_encoding_header()[i]);
        } else if i < accept_encoding_header().len() + 1 {
            assert(aline[i] == SP);
        } else {
            assert(aline[i] == lit_gzip()[i - accept_encoding_header().len() - 1]);
        }
    }
    assert forall|i: int| 0 <= i < hdr.len() implies #[trigger] hdr[i] < 128 by {
        if i < aline.len() {
            assert(hdr[i] == aline[i]);
        } else {
            assert(hdr[i] == seq![CR, LF, CR, LF][i - aline.len()]);
            assert(i - aline.len() == 0 || i - aline.len() == 1 || i - aline.len() == 2 || i
                - aline.len() == 3);
        }
    }
    lemma_ascii_valid_utf8(hdr);
    lemma_echo_printable();
    lemma_family_path_printable(lit_echo(), t);
    assert forall|i: int| 0 <= i < echo_path(t).len() implies 32 < #[trigger] echo_path(t)[i]
        < 127 by {
        assert(echo_path(t)[i] == (seq![SLASH] + lit_echo() + seq![SLASH] + t)[i]);
    }
    lemma_parse_request(Method::Get, echo_path(t), hdr);

    // The scan takes the one header line whole.
    let j = aline.len() as int + 1;
    assert(hdr[j] == LF);
    assert forall|k: int| 0 <= k < j implies hdr[k] != LF by {
        if k < aline.len() {
            assert(32 <= aline[k] < 127);
        } else {
            assert(hdr[k] == CR);
        }
    }
    lemma_find_byte_at(hdr, LF, 0, j);
    assert(hdr[j - 1] == CR);
    assert(line_content(hdr) =~= aline);
    assert(line_rest(hdr) =~= seq![CR, LF]);
    assert(aline.len() != 0);

    // The line splits into the name token and the one encoding token.
    assert forall|k: int| 0 <= k < accept_encoding_header().len() implies accept_encoding_header()[k]
        != SP by {}
    assert(!accept_encoding_header().contains(SP));
    assert forall|k: int| 0 <= k < lit_gzip().len() implies lit_gzip()[k] != SP by {}
    assert(!lit_gzip().contains(SP));
    lemma_split_head(accept_encoding_header(), lit_gzip(), SP);
    lemma_split_no_sep(lit_gzip(), SP);
    let toks = split_on(aline, SP);
    assert(toks =~~= seq![accept_encoding_header(), lit_gzip()]);

    // Lower-cased, the name token is the accept-encoding header name.
    assert(lower_bytes(accept_encoding_header()) =~= lit_accept_encoding_name()) by {
        assert forall|i: int| 0 <= i < 16 implies lower_bytes(accept_encoding_header())[i]
            == lit_accept_encoding_name()[i] by {
            assert(lower_bytes(accept_encoding_header())[i] == lower_byte(
                accept_encoding_header()[i],
            ));
        }
    }

    // The one token classifies as gzip.
    assert(trim_matching(lit_gzip(), COMMA) == lit_gzip()) by {
        assert(lit_gzip()[0] == 103);
        assert(lit_gzip()[3] == 112);
        assert(drop_leading(lit_gzip(), COMMA) == lit_gzip());
        assert(drop_trailing(lit_gzip(), COMMA) == lit_gzip());
    }
    assert(classify_token(lit_gzip()) == Encoding::Gzip);
    let h1 = header_line_applied(empty_header(), aline);
    assert(toks.drop_first() =~~= seq![lit_gzip()]);
    assert(h1.accept_encoding =~= seq![Encoding::Gzip]) by {
        assert(toks.drop_first().map_values(|tok: Seq<u8>| classify_token(tok))[0]
            == classify_token(lit_gzip()));
    }

    // The scan then stops at the blank line with the table holding gzip.
    let rest = seq![CR, LF];
    lemma_find_byte_at(rest, LF, 0, 1);
    assert(line_content(rest) =~= Seq::<u8>::empty());
    assert(line_rest(rest) =~= Seq::<u8>::empty());
    assert(scan_headers(hdr, HEADER_LINE_LIMIT as nat, empty_header()) == scan_headers(
        rest,
        (HEADER_LINE_LIMIT - 1) as nat,
        h1,
    ));
    assert(scan_headers(hdr, HEADER_LINE_LIMIT as nat, empty_header()).0 == h1);
    assert(scan_headers(hdr, HEADER_LINE_LIMIT as nat, empty_header()).1 =~= Seq::<u8>::empty());
    assert(drop_trailing(Seq::<u8>::empty(), NUL) =~= Seq::<u8>::empty());

    // Routing and serialization as the compressed echo law states them.
    assert(h1.accept_encoding[0] == Encoding::Gzip);
    assert(accepts_gzip(h1));
    assert forall|k: int| 0 <= k < t.len() implies t[k] != SLASH by {}
    assert(!t.contains(SLASH));
    theorem_echo_gzip(t, h1);
    assert(route_spec(Method::Get, echo_path(t), h1, Seq::<u8>::empty()) == Ok::<
        RoutePlanView,
        HttpError,
    >(RoutePlanView::Reply(ServedView::Compressed(t))));
}

/// For every file name and every body: `POST /files/<name>` writes exactly
/// the request body to exactly the relative path that `GET /files/<name>`
/// later reads — the two routes agree on the path for every name, slashes
/// included — and a successful read of content `c` serializes as status 200,
/// `application/octet-stream`, and the body exactly `c`. Together: what the
/// POST stored is what the GET returns.
pub proof fn theorem_files_round_trip(name: Seq<u8>, body: Seq<u8>, h: HeaderView)
    ensures
        route_post(files_path(name), body) == Ok::<RoutePlanView, HttpError>(
            RoutePlanView::WriteFile(name, body),
        ),
        route_get(files_path(name), h) == Ok::<RoutePlanView, HttpError>(
            RoutePlanView::ReadFile(name),
        ),
        spec_response(ServedView::Binary(body)) == lit_status_200() + crlf() + lit_content_type()
            + lit_octet_stream() + crlf() + lit_content_length() + dec_of(body.len()) + crlf()
            + crlf() + body + crlf(),
{
    lemma_files_no_slash();
    lemma_segments_of(lit_files(), name);
    lemma_join_split(name, SLASH);
    let segs = split_on(files_path(name), SLASH);
    assert(segs =~~= seq![Seq::<u8>::empty(), lit_files()] + split_on(name, SLASH));
    assert(segs.skip(2) =~~= split_on(name, SLASH));
    assert(tail_of(segs) == join_with(split_on(name, SLASH), SLASH));
    assert(tail_of(segs) == name);
    assert(spec_response(ServedView::Binary(body)) =~= lit_status_200() + crlf()
        + lit_content_type() + lit_octet_stream() + crlf() + lit_content_length() + dec_of(
        body.len(),
    ) + crlf() + crlf() + body + crlf());
}

/// The raw bytes of `POST /files/<name>` with body `body` and no header
/// lines.
pub open spec fn files_post_request(name: Seq<u8>, body: Seq<u8>) -> Seq<u8> {
    raw_request(Method::Post, files_path(name), seq![CR, LF] + body)
}

/// The raw bytes of `GET /files/<name>` with no header lines.
pub open spec fn files_get_request(name: Seq<u8>) -> Seq<u8> {
    raw_request(Method::Get, files_path(name), seq![CR, LF])
}

/// For every token-text file name and every body of valid text without a
/// trailing NUL: the raw `POST /files/<name>` request steps to a write of
/// exactly `body` at exactly `name`, and the raw `GET /files/<name>` request
/// steps to a read of exactly `name` — both traced from the connection's
/// bytes, so the store is asked the same path both ways and the body passes
/// verbatim.
pub proof fn theorem_files_pipeline(name: Seq<u8>, body: Seq<u8>)
    requires
        token_text(name),
        valid_utf8(body),
        body.len() == 0 || body[body.len() - 1] != NUL,
    ensures
        step_of(files_post_request(name, body)) == StepView::FileWrite(name, body),
        step_of(files_get_request(name)) == StepView::FileRead(name),
{
    lemma_files_printable();
    lemma_family_path_printable(lit_files(), name);
    assert forall|i: int| 0 <= i < files_path(name).len() implies 32
        < #[trigger] files_path(name)[i] < 127 by {
        assert(files_path(name)[i] == (seq![SLASH] + lit_files() + seq![SLASH] + name)[i]);
    }
    let crlf2 = seq![CR, LF];
    assert forall|i: int| 0 <= i < crlf2.len() implies #[trigger] crlf2[i] < 128 by {
        assert(i == 0 || i == 1);
    }
    lemma_ascii_valid_utf8(crlf2);
    theorem_files_round_trip(name, body, empty_header());

    // The POST: its header section is the blank line and then the body.
    let hdr_post = crlf2 + body;
    vstd::utf8::valid_utf8_concat(crlf2, body);
    lemma_parse_request(Method::Post, files_path(name), hdr_post);
    assert(hdr_post[0] == CR);
    assert(hdr_post[1] == LF);
    lemma_find_byte_at(hdr_post, LF, 0, 1);
    assert(line_content(hdr_post) =~= Seq::<u8>::empty());
    assert(line_rest(hdr_post) =~= body);
    assert(scan_headers(hdr_post, HEADER_LINE_LIMIT as nat, empty_header()).0 == empty_header());
    assert(scan_headers(hdr_post, HEADER_LINE_LIMIT as nat, empty_header()).1 == body);
    assert(drop_trailing(body, NUL) == body);
    assert(route_spec(Method::Post, files_path(name), empty_header(), body) == Ok::<
        RoutePlanView,
        HttpError,
    >(RoutePlanView::WriteFile(name, body)));

    // The GET: an empty header block and an empty body.
    lemma_parse_request(Method::Get, files_path(name), crlf2);
    lemma_find_byte_at(crlf2, LF, 0, 1);
    assert(line_content(crlf2) =~= Seq::<u8>::empty());
    assert(line_rest(crlf2) =~= Seq::<u8>::empty());
    assert(scan_headers(crlf2, HEADER_LINE_LIMIT as nat, empty_header()).0 == empty_header());
    assert(scan_headers(crlf2, HEADER_LINE_LIMIT as nat, empty_header()).1 =~= Seq::<u8>::empty());
    assert(drop_trailing(Seq::<u8>::empty(), NUL) =~= Seq::<u8>::empty());
    assert(route_spec(Method::Get, files_path(name), empty_header(), Seq::<u8>::empty()) == Ok::<
        RoutePlanView,
        HttpError,
    >(RoutePlanView::ReadFile(name)));
}

} // verus!
