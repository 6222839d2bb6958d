//! The header table: the fields of a request's header block that later
//! stages read. Lines are consumed one at a time, case-insensitively matched
//! on the name token, until a blank line, the end of the buffer, or the line
//! bound is reached.

use vstd::prelude::*;
use crate::bytes::{
    COMMA, SP, line_content, line_rest, lower_bytes, split_on, take_line, to_lower, trim_both,
    trim_matching, split_bytes, eq_bytes, views_of, lemma_split_nonempty,
};
use crate::literals::{
    lit_accept_encoding_name, lit_gzip, lit_host_name, lit_user_agent_name,
    vec_accept_encoding_name, vec_gzip, vec_host_name, vec_user_agent_name,
};

verus! {

/// The most header lines one request may carry; scanning stops here even
/// without a blank line, so a short malformed request cannot run away.
pub const HEADER_LINE_LIMIT: usize = 5;

/// How one `Accept-Encoding` token was classified.
#[derive(Debug, Clone, Copy, PartialEq, Eq, Structural)]
pub enum Encoding {
    /// No transformation of the body.
    Identity,
    /// A token that names no supported encoding; kept, never acted on.
    Invalid,
    /// The one encoding this server can apply.
    Gzip,
}

/// The parsed header table.
#[derive(Debug, PartialEq, Eq)]
pub struct Header {
    pub host: Option<Vec<u8>>,
    pub user_agent: Option<Vec<u8>>,
    pub accept_encoding: Vec<Encoding>,
}

/// The mathematical shape of a header table.
#[verifier::ext_equal]
pub struct HeaderView {
    pub host: Option<Seq<u8>>,
    pub user_agent: Option<Seq<u8>>,
    pub accept_encoding: Seq<Encoding>,
}

impl View for Header {
    type V = HeaderView;

    open spec fn view(&self) -> HeaderView {
        HeaderView {
            host: match self.host {
                Some(v) => Some(v@),
                None => None,
            },
            user_agent: match self.user_agent {
                Some(v) => Some(v@),
                None => None,
            },
            accept_encoding: self.accept_encoding@,
        }
    }
}

/// A table with nothing recorded yet.
pub open spec fn empty_header() -> HeaderView {
    HeaderView { host: None, user_agent: None, accept_encoding: Seq::empty() }
}

impl Default for Header {
    /// The empty table.
    fn default() -> (r: Header)
        ensures
            r@ == empty_header(),
    {
        let r = Header { host: None, user_agent: None, accept_encoding: Vec::new() };
        proof {
            assert(r@ =~= empty_header());
        }
        r
    }
}

/// One `Accept-Encoding` token, commas trimmed: `gzip` is accepted, anything
/// else is recorded as present but invalid.
pub open spec fn classify_token(t: Seq<u8>) -> Encoding {
    if trim_matching(t, COMMA) == lit_gzip() {
        Encoding::Gzip
    } else {
        Encoding::Invalid
    }
}

/// The value token of a header line: the token after the name, or empty when
/// the line carries none.
pub open spec fn header_value(toks: Seq<Seq<u8>>) -> Seq<u8> {
    if toks.len() >= 2 {
        toks[1]
    } else {
        Seq::empty()
    }
}

/// The table after one header line: the line is split on spaces, the name
/// token is matched case-insensitively, and an unrecognized line leaves the
/// table unchanged.
pub open spec fn header_line_applied(h: HeaderView, line: Seq<u8>) -> HeaderView {
    let toks = split_on(line, SP);
    let name = lower_bytes(toks[0]);
    if name == lit_host_name() {
        HeaderView { host: Some(header_value(toks)), ..h }
    } else if name == lit_user_agent_name() {
        HeaderView { user_agent: Some(header_value(toks)), ..h }
    } else if name == lit_accept_encoding_name() {
        HeaderView {
            accept_encoding: h.accept_encoding + toks.drop_first().map_values(
                |t: Seq<u8>| classify_token(t),
            ),
            ..h
        }
    } else {
        h
    }
}

/// The table built from the lines of `s`, and what of `s` is left after them.
/// Scanning stops at the first blank line (or the end of the input, which
/// reads as one) or once `fuel` lines were taken, whichever comes first.
pub open spec fn scan_headers(s: Seq<u8>, fuel: nat, h: HeaderView) -> (HeaderView, Seq<u8>)
    decreases fuel,
{
    if fuel == 0 {
        (h, s)
    } else {
        let line = line_content(s);
        if line.len() == 0 {
            (h, line_rest(s))
        } else {
            scan_headers(line_rest(s), (fuel - 1) as nat, header_line_applied(h, line))
        }
    }
}

fn header_value_exec(toks: &Vec<Vec<u8>>) -> (r: Vec<u8>)
    ensures
        r@ == header_value(views_of(toks@)),
{
    if toks.len() >= 2 {
        vstd::slice::slice_to_vec(toks[1].as_slice())
    } else {
        Vec::new()
    }
}

fn classify_exec(tok: &Vec<u8>) -> (r: Encoding)
    ensures
        r == classify_token(tok@),
{
    let trimmed = trim_both(tok.as_slice(), COMMA);
    let gz = vec_gzip();
    if eq_bytes(trimmed.as_slice(), gz.as_slice()) {
        Encoding::Gzip
    } else {
        Encoding::Invalid
    }
}

/// Folds one header line into the table.
pub fn apply_header_line(hdr: &mut Header, line: &Vec<u8>)
    ensures
        final(hdr)@ == header_line_applied(old(hdr)@, line@),
{
    let toks = split_bytes(line.as_slice(), SP);
    proof {
        lemma_split_nonempty(line@, SP);
        assert(views_of(toks@)[0] == toks@[0]@);
    }
    let name = to_lower(toks[0].as_slice());
    let host_name = vec_host_name();
    let ua_name = vec_user_agent_name();
    let ae_name = vec_accept_encoding_name();
    if eq_bytes(name.as_slice(), host_name.as_slice()) {
        hdr.host = Some(header_value_exec(&toks));
        proof {
            assert(hdr@ =~= header_line_applied(old(hdr)@, line@));
        }
    } else if eq_bytes(name.as_slice(), ua_name.as_slice()) {
        hdr.user_agent = Some(header_value_exec(&toks));
        proof {
            assert(hdr@ =~= header_line_applied(old(hdr)@, line@));
        }
    } else if eq_bytes(name.as_slice(), ae_name.as_slice()) {
        let ghost added = views_of(toks@).drop_first().map_values(
            |t: Seq<u8>| classify_token(t),
        );
        let n = toks.len();
        let mut i: usize = 1;
        while i < n
            invariant
                1 <= i <= n,
                n == toks@.len(),
                hdr.host == old(hdr).host,
                hdr.user_agent == old(hdr).user_agent,
                added == views_of(toks@).drop_first().map_values(
                    |t: Seq<u8>| classify_token(t),
                ),
                added.len() == n - 1,
                hdr.accept_encoding@ == old(hdr).accept_encoding@ + added.take(i - 1),
            decreases n - i,
        {
            let e = classify_exec(&toks[i]);
            proof {
                assert(added[i - 1] == classify_token(views_of(toks@)[i as int]));
                assert(views_of(toks@)[i as int] == toks@[i as int]@);
            }
            hdr.accept_encoding.push(e);
            proof {
                assert(hdr.accept_encoding@ =~= old(hdr).accept_encoding@ + added.take(
                    i as int,
                ));
            }
            i = i + 1;
        }
        proof {
            assert(added.take(n - 1) =~= added);
            assert(hdr@ =~= header_line_applied(old(hdr)@, line@));
        }
    } else {
        proof {
            assert(hdr@ =~= header_line_applied(old(hdr)@, line@));
        }
    }
}

/// Scans header lines of `buf` from `from` into `hdr`, stopping at a blank
/// line, the end of the buffer, or after `fuel` lines; returns where the body
/// starts.
pub fn scan_headers_exec(buf: &[u8], from: usize, fuel: usize, hdr: &mut Header) -> (body_from:
    usize)
    requires
        from <= buf@.len(),
    ensures
        body_from <= buf@.len(),
        scan_headers(buf@.skip(from as int), fuel as nat, old(hdr)@).0 == final(hdr)@,
        scan_headers(buf@.skip(from as int), fuel as nat, old(hdr)@).1 == buf@.skip(
            body_from as int,
        ),
    decreases fuel,
{
    if fuel == 0 {
        return from;
    }
    let (line, next) = take_line(buf, from);
    if line.len() == 0 {
        return next;
    }
    apply_header_line(hdr, &line);
    scan_headers_exec(buf, next, fuel - 1, hdr)
}

} // verus!
