//! The byte constants of the wire protocol: method names, route families,
//! header names, status lines and header prefixes, each as a spec sequence
//! and as an executable vector proved equal to it.

use vstd::prelude::*;

verus! {

/// Bytes of `"GET"`.
pub open spec fn lit_get() -> Seq<u8> {
    seq![71u8, 69u8, 84u8]
}

/// Builds the bytes of `"GET"`.
pub fn vec_get() -> (r: Vec<u8>)
    ensures
        r@ == lit_get(),
{
    let mut v: Vec<u8> = Vec::new();
    v.push(71u8);
    v.push(69u8);
    v.push(84u8);
    proof {
        assert(v@ =~= lit_get());
    }
    v
}

/// Bytes of `"POST"`.
pub open spec fn lit_post() -> Seq<u8> {
    seq![80u8, 79u8, 83u8, 84u8]
}

/// Builds the bytes of `"POST"`.
pub fn vec_post() -> (r: Vec<u8>)
    ensures
        r@ == lit_post(),
{
    let mut v: Vec<u8> = Vec::new();
    v.push(80u8);
    v.push(79u8);
    v.push(83u8);
    v.push(84u8);
    proof {
        assert(v@ =~= lit_post());
    }
    v
}

/// Bytes of `"echo"`.
pub open spec fn lit_echo() -> Seq<u8> {
    seq![101u8, 99u8, 104u8, 111u8]
}

/// Builds the bytes of `"echo"`.
pub fn vec_echo() -> (r: Vec<u8>)
    ensures
        r@ == lit_echo(),
{
    let mut v: Vec<u8> = Vec::new();
    v.push(101u8);
    v.push(99u8);
    v.push(104u8);
    v.push(111u8);
    proof {
        assert(v@ =~= lit_echo());
    }
    v
}

/// Bytes of `"user-agent"`.
pub open spec fn lit_user_agent() -> Seq<u8> {
    seq![117u8, 115u8, 101u8, 114u8, 45u8, 97u8, 103u8, 101u8, 110u8, 116u8]
}

/// Builds the bytes of `"user-agent"`.
pub fn vec_user_agent() -> (r: Vec<u8>)
    ensures
        r@ == lit_user_agent(),
{
    let mut v: Vec<u8> = Vec::new();
    v.push(117u8);
    v.push(115u8);
    v.push(101u8);
    v.push(114u8);
    v.push(45u8);
    v.push(97u8);
    v.push(103u8);
    v.push(101u8);
    v.push(110u8);
    v.push(116u8);
    proof {
        assert(v@ =~= lit_user_agent());
    }
    v
}

/// Bytes of `"files"`.
pub open spec fn lit_files() -> Seq<u8> {
    seq![102u8, 105u8, 108u8, 101u8, 115u8]
}

/// Builds the bytes of `"files"`.
pub fn vec_files() -> (r: Vec<u8>)
    ensures
        r@ == lit_files(),
{
    let mut v: Vec<u8> = Vec::new();
    v.push(102u8);
    v.push(105u8);
    v.push(108u8);
    v.push(101u8);
    v.push(115u8);
    proof {
        assert(v@ =~= lit_files());
    }
    v
}

/// Bytes of `"host:"`.
pub open spec fn lit_host_name() -> Seq<u8> {
    seq![104u8, 111u8, 115u8, 116u8, 58u8]
}

/// Builds the bytes of `"host:"`.
pub fn vec_host_name() -> (r: Vec<u8>)
    ensures
        r@ == lit_host_name(),
{
    let mut v: Vec<u8> = Vec::new();
    v.push(104u8);
    v.push(111u8);
    v.push(115u8);
    v.push(116u8);
    v.push(58u8);
    proof {
        assert(v@ =~= lit_host_name());
    }
    v
}

/// Bytes of `"user-agent:"`.
pub open spec fn lit_user_agent_name() -> Seq<u8> {
    seq![117u8, 115u8, 101u8, 114u8, 45u8, 97u8, 103u8, 101u8, 110u8, 116u8, 58u8]
}

/// Builds the bytes of `"user-agent:"`.
pub fn vec_user_agent_name() -> (r: Vec<u8>)
    ensures
        r@ == lit_user_agent_name(),
{
    let mut v: Vec<u8> = Vec::new();
    v.push(117u8);
    v.push(115u8);
    v.push(101u8);
    v.push(114u8);
    v.push(45u8);
    v.push(97u8);
    v.push(103u8);
    v.push(101u8);
    v.push(110u8);
    v.push(116u8);
    v.push(58u8);
    proof {
        assert(v@ =~= lit_user_agent_name());
    }
    v
}

/// Bytes of `"accept-encoding:"`.
pub open spec fn lit_accept_encoding_name() -> Seq<u8> {
    seq![97u8, 99u8, 99u8, 101u8, 112u8, 116u8, 45u8, 101u8, 110u8, 99u8, 111u8, 100u8, 105u8, 110u8, 103u8, 58u8]
}

/// Builds the bytes of `"accept-encoding:"`.
pub fn vec_accept_encoding_name() -> (r: Vec<u8>)
    ensures
        r@ == lit_accept_encoding_name(),
{
    let mut v: Vec<u8> = Vec::new();
    v.push(97u8);
    v.push(99u8);
    v.push(99u8);
    v.push(101u8);
    v.push(112u8);
    v.push(116u8);
    v.push(45u8);
    v.push(101u8);
    v.push(110u8);
    v.push(99u8);
    v.push(111u8);
    v.push(100u8);
    v.push(105u8);
    v.push(110u8);
    v.push(103u8);
    v.push(58u8);
    proof {
        assert(v@ =~= lit_accept_encoding_name());
    }
    v
}

/// Bytes of `"gzip"`.
pub open spec fn lit_gzip() -> Seq<u8> {
    seq![103u8, 122u8, 105u8, 112u8]
}

/// Builds the bytes of `"gzip"`.
pub fn vec_gzip() -> (r: Vec<u8>)
    ensures
        r@ == lit_gzip(),
{
    let mut v: Vec<u8> = Vec::new();
    v.push(103u8);
    v.push(122u8);
    v.push(105u8);
    v.push(112u8);
    proof {
        assert(v@ =~= lit_gzip());
    }
    v
}

/// Bytes of `"HTTP/1.1 200 OK"`.
pub open spec fn lit_status_200() -> Seq<u8> {
    seq![72u8, 84u8, 84u8, 80u8, 47u8, 49u8, 46u8, 49u8, 32u8, 50u8, 48u8, 48u8, 32u8, 79u8, 75u8]
}

/// Builds the bytes of `"HTTP/1.1 200 OK"`.
pub fn vec_status_200() -> (r: Vec<u8>)
    ensures
        r@ == lit_status_200(),
{
    let mut v: Vec<u8> = Vec::new();
    v.push(72u8);
    v.push(84u8);
    v.push(84u8);
    v.push(80u8);
    v.push(47u8);
    v.push(49u8);
    v.push(46u8);
    v.push(49u8);
    v.push(32u8);
    v.push(50u8);
    v.push(48u8);
    v.push(48u8);
    v.push(32u8);
    v.push(79u8);
    v.push(75u8);
    proof {
        assert(v@ =~= lit_status_200());
    }
    v
}

/// Bytes of `"HTTP/1.1 404 Not Found"`.
pub open spec fn lit_status_404() -> Seq<u8> {
    seq![72u8, 84u8, 84u8, 80u8, 47u8, 49u8, 46u8, 49u8, 32u8, 52u8, 48u8, 52u8, 32u8, 78u8, 111u8, 116u8, 32u8, 70u8, 111u8, 117u8, 110u8, 100u8]
}

/// Builds the bytes of `"HTTP/1.1 404 Not Found"`.
pub fn vec_status_404() -> (r: Vec<u8>)
    ensures
        r@ == lit_status_404(),
{
    let mut v: Vec<u8> = Vec::new();
    v.push(72u8);
    v.push(84u8);
    v.push(84u8);
    v.push(80u8);
    v.push(47u8);
    v.push(49u8);
    v.push(46u8);
    v.push(49u8);
    v.push(32u8);
    v.push(52u8);
    v.push(48u8);
    v.push(52u8);
    v.push(32u8);
    v.push(78u8);
    v.push(111u8);
    v.push(116u8);
    v.push(32u8);
    v.push(70u8);
    v.push(111u8);
    v.push(117u8);
    v.push(110u8);
    v.push(100u8);
    proof {
        assert(v@ =~= lit_status_404());
    }
    v
}

/// Bytes of `"HTTP/1.1 201 Created"`.
pub open spec fn lit_status_201() -> Seq<u8> {
    seq![72u8, 84u8, 84u8, 80u8, 47u8, 49u8, 46u8, 49u8, 32u8, 50u8, 48u8, 49u8, 32u8, 67u8, 114u8, 101u8, 97u8, 116u8, 101u8, 100u8]
}

/// Builds the bytes of `"HTTP/1.1 201 Created"`.
pub fn vec_status_201() -> (r: Vec<u8>)
    ensures
        r@ == lit_status_201(),
{
    let mut v: Vec<u8> = Vec::new();
    v.push(72u8);
    v.push(84u8);
    v.push(84u8);
    v.push(80u8);
    v.push(47u8);
    v.push(49u8);
    v.push(46u8);
    v.push(49u8);
    v.push(32u8);
    v.push(50u8);
    v.push(48u8);
    v.push(49u8);
    v.push(32u8);
    v.push(67u8);
    v.push(114u8);
    v.push(101u8);
    v.push(97u8);
    v.push(116u8);
    v.push(101u8);
    v.push(100u8);
    proof {
        assert(v@ =~= lit_status_201());
    }
    v
}

/// Bytes of `"HTTP/1.1 500 Internal Server Error"`.
pub open spec fn lit_status_500() -> Seq<u8> {
    seq![72u8, 84u8, 84u8, 80u8, 47u8, 49u8, 46u8, 49u8, 32u8, 53u8, 48u8, 48u8, 32u8, 73u8, 110u8, 116u8, 101u8, 114u8, 110u8, 97u8, 108u8, 32u8, 83u8, 101u8, 114u8, 118u8, 101u8, 114u8, 32u8, 69u8, 114u8, 114u8, 111u8, 114u8]
}

/// Builds the bytes of `"HTTP/1.1 500 Internal Server Error"`.
pub fn vec_status_500() -> (r: Vec<u8>)
    ensures
        r@ == lit_status_500(),
{
    let mut v: Vec<u8> = Vec::new();
    v.push(72u8);
    v.push(84u8);
    v.push(84u8);
    v.push(80u8);
    v.push(47u8);
    v.push(49u8);
    v.push(46u8);
    v.push(49u8);
    v.push(32u8);
    v.push(53u8);
    v.push(48u8);
    v.push(48u8);
    v.push(32u8);
    v.push(73u8);
    v.push(110u8);
    v.push(116u8);
    v.push(101u8);
    v.push(114u8);
    v.push(110u8);
    v.push(97u8);
    v.push(108u8);
    v.push(32u8);
    v.push(83u8);
    v.push(101u8);
    v.push(114u8);
    v.push(118u8);
    v.push(101u8);
    v.push(114u8);
    v.push(32u8);
    v.push(69u8);
    v.push(114u8);
    v.push(114u8);
    v.push(111u8);
    v.push(114u8);
    proof {
        assert(v@ =~= lit_status_500());
    }
    v
}

/// Bytes of `"Content-Encoding: "`.
pub open spec fn lit_content_encoding() -> Seq<u8> {
    seq![67u8, 111u8, 110u8, 116u8, 101u8, 110u8, 116u8, 45u8, 69u8, 110u8, 99u8, 111u8, 100u8, 105u8, 110u8, 103u8, 58u8, 32u8]
}

/// Builds the bytes of `"Content-Encoding: "`.
pub fn vec_content_encoding() -> (r: Vec<u8>)
    ensures
        r@ == lit_content_encoding(),
{
    let mut v: Vec<u8> = Vec::new();
    v.push(67u8);
    v.push(111u8);
    v.push(110u8);
    v.push(116u8);
    v.push(101u8);
    v.push(110u8);
    v.push(116u8);
    v.push(45u8);
    v.push(69u8);
    v.push(110u8);
    v.push(99u8);
    v.push(111u8);
    v.push(100u8);
    v.push(105u8);
    v.push(110u8);
    v.push(103u8);
    v.push(58u8);
    v.push(32u8);
    proof {
        assert(v@ =~= lit_content_encoding());
    }
    v
}

/// Bytes of `"Content-Type: "`.
pub open spec fn lit_content_type() -> Seq<u8> {
    seq![67u8, 111u8, 110u8, 116u8, 101u8, 110u8, 116u8, 45u8, 84u8, 121u8, 112u8, 101u8, 58u8, 32u8]
}

/// Builds the bytes of `"Content-Type: "`.
pub fn vec_content_type() -> (r: Vec<u8>)
    ensures
        r@ == lit_content_type(),
{
    let mut v: Vec<u8> = Vec::new();
    v.push(67u8);
    v.push(111u8);
    v.push(110u8);
    v.push(116u8);
    v.push(101u8);
    v.push(110u8);
    v.push(116u8);
    v.push(45u8);
    v.push(84u8);
    v.push(121u8);
    v.push(112u8);
    v.push(101u8);
    v.push(58u8);
    v.push(32u8);
    proof {
        assert(v@ =~= lit_content_type());
    }
    v
}

/// Bytes of `"Content-Length: "`.
pub open spec fn lit_content_length() -> Seq<u8> {
    seq![67u8, 111u8, 110u8, 116u8, 101u8, 110u8, 116u8, 45u8, 76u8, 101u8, 110u8, 103u8, 116u8, 104u8, 58u8, 32u8]
}

/// Builds the bytes of `"Content-Length: "`.
pub fn vec_content_length() -> (r: Vec<u8>)
    ensures
        r@ == lit_content_length(),
{
    let mut v: Vec<u8> = Vec::new();
    v.push(67u8);
    v.push(111u8);
    v.push(110u8);
    v.push(116u8);
    v.push(101u8);
    v.push(110u8);
    v.push(116u8);
    v.push(45u8);
    v.push(76u8);
    v.push(101u8);
    v.push(110u8);
    v.push(103u8);
    v.push(116u8);
    v.push(104u8);
    v.push(58u8);
    v.push(32u8);
    proof {
        assert(v@ =~= lit_content_length());
    }
    v
}

/// Bytes of `"text/plain"`.
pub open spec fn lit_text_plain() -> Seq<u8> {
    seq![116u8, 101u8, 120u8, 116u8, 47u8, 112u8, 108u8, 97u8, 105u8, 110u8]
}

/// Builds the bytes of `"text/plain"`.
pub fn vec_text_plain() -> (r: Vec<u8>)
    ensures
        r@ == lit_text_plain(),
{
    let mut v: Vec<u8> = Vec::new();
    v.push(116u8);
    v.push(101u8);
    v.push(120u8);
    v.push(116u8);
    v.push(47u8);
    v.push(112u8);
    v.push(108u8);
    v.push(97u8);
    v.push(105u8);
    v.push(110u8);
    proof {
        assert(v@ =~= lit_text_plain());
    }
    v
}

/// Bytes of `"application/octet-stream"`.
pub open spec fn lit_octet_stream() -> Seq<u8> {
    seq![97u8, 112u8, 112u8, 108u8, 105u8, 99u8, 97u8, 116u8, 105u8, 111u8, 110u8, 47u8, 111u8, 99u8, 116u8, 101u8, 116u8, 45u8, 115u8, 116u8, 114u8, 101u8, 97u8, 109u8]
}

/// Builds the bytes of `"application/octet-stream"`.
pub fn vec_octet_stream() -> (r: Vec<u8>)
    ensures
        r@ == lit_octet_stream(),
{
    let mut v: Vec<u8> = Vec::new();
    v.push(97u8);
    v.push(112u8);
    v.push(112u8);
    v.push(108u8);
    v.push(105u8);
    v.push(99u8);
    v.push(97u8);
    v.push(116u8);
    v.push(105u8);
    v.push(111u8);
    v.push(110u8);
    v.push(47u8);
    v.push(111u8);
    v.push(99u8);
    v.push(116u8);
    v.push(101u8);
    v.push(116u8);
    v.push(45u8);
    v.push(115u8);
    v.push(116u8);
    v.push(114u8);
    v.push(101u8);
    v.push(97u8);
    v.push(109u8);
    proof {
        assert(v@ =~= lit_octet_stream());
    }
    v
}

} // verus!
