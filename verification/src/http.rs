//! The fixed HTTP responses of the firmware's minimal web server, and the
//! response that serves the upload form.
use vstd::prelude::*;

use crate::text::{decimal, decimal_string};

verus! {

pub const INTERNAL_SERVER_ERROR: &'static str =
    "HTTP/1.1 500 Internal Server Error\r\nContent-length:0\r\nConnection: close\r\n\r\n";

pub const OK: &'static str =
    "HTTP/1.1 200 OK\r\nContent-length:4\r\nConnection: close\r\n\r\npong";

pub const BAD_REQUEST: &'static str =
    "HTTP/1.1 400 Bad Request\r\nContent-length:0\r\nConnection: close\r\n\r\n";

pub const REQUEST_TIMEOUT: &'static str =
    "HTTP/1.1 408 Request Timeout\r\nContent-length:0\r\nConnection: close\r\n\r\n";

pub const METHOD_NOT_ALLOWED: &'static str =
    "HTTP/1.1 405 Method Not Allowed\r\nContent-length:0\r\nConnection: close\r\n\r\n";

pub const SERVICE_UNAVAILABLE: &'static str =
    "HTTP/1.1 503 Service Unavailable\r\nContent-length:0\r\nConnection: close\r\n\r\n";

/// The HTTP methods the server understands.
#[derive(PartialEq, Eq, Structural, Debug, Clone, Copy)]
pub enum Method {
    Get,
    Put,
}

/// The ASCII bytes of the characters `s`.
pub open spec fn ascii_bytes(s: Seq<char>) -> Seq<u8> {
    s.map_values(|c: char| c as u8)
}

/// The head of the response that serves an HTML page of `len` bytes.
pub open spec fn html_head(len: nat) -> Seq<char> {
    "HTTP/1.1 200 OK\r\nContent-Type: text/html\r\nContent-Length: "@ + decimal(len)
        + "\r\nConnection: close\r\n\r\n"@
}

pub(crate) proof fn lemma_decimal_ascii(n: nat)
    ensures
        forall|i: int| 0 <= i < decimal(n).len() ==> (decimal(n)[i] as u32) < 128,
    decreases n,
{
    let c = (('0' as u32) + (n % 10)) as char;
    assert((c as u32) < 128);
    if n >= 10 {
        lemma_decimal_ascii(n / 10);
        assert(decimal(n) == decimal(n / 10).push(c));
    } else {
        assert(decimal(n) == seq![c]);
    }
}

/// Appends the ASCII characters `s` to `out` as bytes.
pub(crate) fn push_ascii(out: &mut Vec<u8>, s: &[char])
    requires
        forall|i: int| 0 <= i < s@.len() ==> (s@[i] as u32) < 128,
    ensures
        final(out)@ == old(out)@ + ascii_bytes(s@),
{
    let ghost start = out@;
    let mut i: usize = 0;
    while i < s.len()
        invariant
            i <= s@.len(),
            forall|k: int| 0 <= k < s@.len() ==> (s@[k] as u32) < 128,
            out@ =~= start + ascii_bytes(s@.subrange(0, i as int)),
        decreases s@.len() - i,
    {
        out.push(s[i] as u8);
        proof {
            assert(ascii_bytes(s@.subrange(0, i + 1)) =~= ascii_bytes(s@.subrange(0, i as int)).push(
                s@[i as int] as u8,
            ));
        }
        i = i + 1;
    }
    assert(s@.subrange(0, s@.len() as int) =~= s@);
}

/// The response that serves the upload form `html`: a `200 OK` with
/// `Content-Type: text/html`, the form's length in bytes and
/// `Connection: close`, then the form itself.
pub fn index_html(html: &[u8]) -> (r: Vec<u8>)
    ensures
        r@ == ascii_bytes(html_head(html@.len())) + html@,
{
    let mut out: Vec<u8> = Vec::new();
    let a = crate::text::str_chars("HTTP/1.1 200 OK\r\nContent-Type: text/html\r\nContent-Length: ");
    let b = decimal_string(html.len() as u64);
    let c = crate::text::str_chars("\r\nConnection: close\r\n\r\n");
    proof {
        reveal_strlit("HTTP/1.1 200 OK\r\nContent-Type: text/html\r\nContent-Length: ");
        reveal_strlit("\r\nConnection: close\r\n\r\n");
        lemma_decimal_ascii(html@.len());
    }
    push_ascii(&mut out, &a);
    push_ascii(&mut out, &b);
    push_ascii(&mut out, &c);
    let ghost head = out@;
    let mut i: usize = 0;
    while i < html.len()
        invariant
            i <= html@.len(),
            out@ =~= head + html@.subrange(0, i as int),
        decreases html@.len() - i,
    {
        out.push(html[i]);
        i = i + 1;
    }
    proof {
        assert(html@.subrange(0, html@.len() as int) =~= html@);
        assert(ascii_bytes(a@ + b@ + c@) =~= ascii_bytes(a@) + ascii_bytes(b@) + ascii_bytes(c@));
    }
    out
}

/// An address in dotted decimal form, first octet first.
pub open spec fn dotted(addr: u32) -> Seq<char> {
    decimal((addr / 0x100_0000) as nat) + "."@ + decimal((addr / 0x1_0000 % 0x100) as nat) + "."@
        + decimal((addr / 0x100 % 0x100) as nat) + "."@ + decimal((addr % 0x100) as nat)
}

/// The response that sends a request on to the web server of the machine
/// at `addr`, listening on `port`, with the same method.
pub open spec fn redirect_text(addr: u32, port: u16) -> Seq<char> {
    "HTTP/1.1 307 Temporary Redirect\r\nLocation: http://"@ + dotted(addr) + ":"@ + decimal(
        port as nat,
    ) + "/\r\nContent-length:0\r\nConnection: close\r\n\r\n"@
}

/// The bytes of the redirect to the machine at `addr`, port `port`.
pub fn redirect_response(addr: u32, port: u16) -> (r: Vec<u8>)
    ensures
        r@ == ascii_bytes(redirect_text(addr, port)),
{
    let head = crate::text::str_chars("HTTP/1.1 307 Temporary Redirect\r\nLocation: http://");
    let dot = crate::text::str_chars(".");
    let colon = crate::text::str_chars(":");
    let tail = crate::text::str_chars("/\r\nContent-length:0\r\nConnection: close\r\n\r\n");
    let a = decimal_string((addr / 0x100_0000) as u64);
    let b = decimal_string((addr / 0x1_0000 % 0x100) as u64);
    let c = decimal_string((addr / 0x100 % 0x100) as u64);
    let d = decimal_string((addr % 0x100) as u64);
    let p = decimal_string(port as u64);
    proof {
        reveal_strlit("HTTP/1.1 307 Temporary Redirect\r\nLocation: http://");
        reveal_strlit(".");
        reveal_strlit(":");
        reveal_strlit("/\r\nContent-length:0\r\nConnection: close\r\n\r\n");
        lemma_decimal_ascii((addr / 0x100_0000) as nat);
        lemma_decimal_ascii((addr / 0x1_0000 % 0x100) as nat);
        lemma_decimal_ascii((addr / 0x100 % 0x100) as nat);
        lemma_decimal_ascii((addr % 0x100) as nat);
        lemma_decimal_ascii(port as nat);
    }
    let mut out: Vec<u8> = Vec::new();
    push_ascii(&mut out, &head);
    push_ascii(&mut out, &a);
    push_ascii(&mut out, &dot);
    push_ascii(&mut out, &b);
    push_ascii(&mut out, &dot);
    push_ascii(&mut out, &c);
    push_ascii(&mut out, &dot);
    push_ascii(&mut out, &d);
    push_ascii(&mut out, &colon);
    push_ascii(&mut out, &p);
    push_ascii(&mut out, &tail);
    proof {
        let t = head@ + a@ + dot@ + b@ + dot@ + c@ + dot@ + d@ + colon@ + p@ + tail@;
        assert(t =~= redirect_text(addr, port));
        assert(ascii_bytes(t) =~= ascii_bytes(head@) + ascii_bytes(a@) + ascii_bytes(dot@)
            + ascii_bytes(b@) + ascii_bytes(dot@) + ascii_bytes(c@) + ascii_bytes(dot@)
            + ascii_bytes(d@) + ascii_bytes(colon@) + ascii_bytes(p@) + ascii_bytes(tail@));
    }
    out
}

} // verus!
