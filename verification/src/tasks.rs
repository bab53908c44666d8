//! The firmware's tasks: the web server, the UDP messaging and the job
//! ledger. This module also holds the stricter request handling of the
//! single-socket server, which stores every upload under one fixed name.
use vstd::prelude::*;
use vstd::utf8::decode_utf8;

pub mod messages;
pub mod rng;
pub mod tcp;
pub mod udp;

use crate::http::{Method, BAD_REQUEST};
use crate::text::{
    copy_range, eq_chars, find_char_from, line_at, lines, lines_from, parse_usize,
    parse_usize_chars, split_once, split_once_chars, str_chars, trim, trim_chars,
};
pub use tcp::{check_start_line, split_request};
use tcp::{chunk_view, lemma_lines_step, split_request_spec, start_line_result};

verus! {

/// The content length and whether the content type is G-code, as read so
/// far, or a bad request.
pub open spec fn strict_header(acc: (usize, bool), line: Seq<char>) -> Option<(usize, bool)> {
    match split_once(line, ':') {
        None => None,
        Some((k, v)) => if k == "content-length"@ || k == "Content-Length"@ {
            match parse_usize(trim(v)) {
                None => None,
                Some(n) => Some((n, acc.1)),
            }
        } else if k == "content-type"@ || k == "Content-Type"@ {
            Some((acc.0, acc.1 || trim(v) == "text/x.gcode"@))
        } else {
            Some(acc)
        },
    }
}

pub open spec fn strict_headers(acc: (usize, bool), ls: Seq<Seq<char>>) -> Option<(usize, bool)>
    decreases ls.len(),
{
    if ls.len() == 0 {
        Some(acc)
    } else {
        match strict_header(acc, ls[0]) {
            None => None,
            Some(a) => strict_headers(a, ls.drop_first()),
        }
    }
}

/// The upload size the strict server accepts: every header line must have
/// a `:`, a `content-length` or `Content-Length` header must parse, the
/// content type must be `text/x.gcode`, and the length must be between 1
/// and 1 000 000 bytes.
pub open spec fn strict_put_result(headers: Seq<char>) -> Result<usize, &'static str> {
    match strict_headers((0, false), lines(headers)) {
        None => Err(BAD_REQUEST),
        Some((n, gcode)) => if !gcode || n == 0 || n > tcp::MAX_UPLOAD {
            Err(BAD_REQUEST)
        } else {
            Ok(n)
        },
    }
}

/// A header line the strict server has no use for: it has a `:`, and its
/// key is neither form of `Content-Length` nor of `Content-Type`.
pub open spec fn other_header(l: Seq<char>) -> bool {
    match split_once(l, ':') {
        Some((k, _)) => k != "content-length"@ && k != "Content-Length"@ && k != "content-type"@ && k
            != "Content-Type"@,
        None => false,
    }
}

/// A `Content-Length` header line (either form of the key) that reads as `n`.
pub open spec fn length_header(l: Seq<char>, n: usize) -> bool {
    match split_once(l, ':') {
        Some((k, v)) => (k == "content-length"@ || k == "Content-Length"@) && parse_usize(trim(v))
            == Some(n),
        None => false,
    }
}

/// A `Content-Type: text/x.gcode` header line (either form of the key).
pub open spec fn gcode_header(l: Seq<char>) -> bool {
    match split_once(l, ':') {
        Some((k, v)) => (k == "content-type"@ || k == "Content-Type"@) && trim(v) == "text/x.gcode"@,
        None => false,
    }
}

proof fn lemma_strict_headers_skip(acc: (usize, bool), ls: Seq<Seq<char>>, i: int, l: Seq<char>)
    requires
        other_header(l),
        0 <= i <= ls.len(),
    ensures
        strict_headers(acc, ls.insert(i, l)) == strict_headers(acc, ls),
    decreases ls.len(),
{
    reveal_strlit("content-length");
    reveal_strlit("Content-Length");
    reveal_strlit("content-type");
    reveal_strlit("Content-Type");
    let ls2 = ls.insert(i, l);
    if i == 0 {
        assert(ls2[0] == l);
        assert(ls2.drop_first() =~= ls);
        assert(strict_header(acc, l) == Some(acc));
    } else {
        assert(ls2[0] == ls[0]);
        assert(ls2.drop_first() =~= ls.drop_first().insert(i - 1, l));
        match strict_header(acc, ls[0]) {
            None => {},
            Some(a) => {
                lemma_strict_headers_skip(a, ls.drop_first(), i - 1, l);
            },
        }
    }
}

/// The strict server ignores every header but `Content-Length` and
/// `Content-Type`: putting a line with any other key (such as `Host`)
/// anywhere among the header lines leaves the result unchanged.
pub proof fn law_strict_other_headers_ignored(h: Seq<char>, h2: Seq<char>, i: int, l: Seq<char>)
    requires
        other_header(l),
        0 <= i <= lines(h).len(),
        lines(h2) == lines(h).insert(i, l),
    ensures
        strict_put_result(h2) == strict_put_result(h),
{
    lemma_strict_headers_skip((0, false), lines(h), i, l);
}

proof fn lemma_strict_headers_fold(acc: (usize, bool), ls: Seq<Seq<char>>, n: usize)
    requires
        forall|i: int|
            0 <= i < ls.len() ==> other_header(#[trigger] ls[i]) || length_header(ls[i], n)
                || gcode_header(ls[i]),
    ensures
        strict_headers(acc, ls) == Some(
            (
                if exists|i: int| 0 <= i < ls.len() && length_header(#[trigger] ls[i], n) {
                    n
                } else {
                    acc.0
                },
                acc.1 || exists|i: int| 0 <= i < ls.len() && gcode_header(#[trigger] ls[i]),
            ),
        ),
    decreases ls.len(),
{
    reveal_strlit("content-length");
    reveal_strlit("Content-Length");
    reveal_strlit("content-type");
    reveal_strlit("Content-Type");
    reveal_strlit("text/x.gcode");
    if ls.len() > 0 {
        let l = ls[0];
        let rest = ls.drop_first();
        assert(other_header(ls[0]) || length_header(ls[0], n) || gcode_header(ls[0]));
        let a = if length_header(l, n) {
            (n, acc.1)
        } else if gcode_header(l) {
            (acc.0, true)
        } else {
            acc
        };
        assert(strict_header(acc, l) == Some(a)) by {
            let (k, v) = split_once(l, ':')->Some_0;
            assert("content-length"@ != "content-type"@ && "content-length"@ != "Content-Type"@
                && "Content-Length"@ != "content-type"@ && "Content-Length"@ != "Content-Type"@) by {
                assert("content-length"@[8] != "content-type"@[8]);
                assert("content-length"@[8] != "Content-Type"@[8]);
                assert("Content-Length"@[8] != "content-type"@[8]);
                assert("Content-Length"@[8] != "Content-Type"@[8]);
            }
        }
        assert forall|i: int| 0 <= i < rest.len() implies other_header(#[trigger] rest[i])
            || length_header(rest[i], n) || gcode_header(rest[i]) by {
            assert(rest[i] == ls[i + 1]);
        }
        lemma_strict_headers_fold(a, rest, n);
        if exists|i: int| 0 <= i < rest.len() && length_header(#[trigger] rest[i], n) {
            let i = choose|i: int| 0 <= i < rest.len() && length_header(#[trigger] rest[i], n);
            assert(ls[i + 1] == rest[i]);
        }
        if exists|i: int| 0 <= i < ls.len() && length_header(#[trigger] ls[i], n) {
            let i = choose|i: int| 0 <= i < ls.len() && length_header(#[trigger] ls[i], n);
            if i > 0 {
                assert(rest[i - 1] == ls[i]);
            }
        }
        if exists|i: int| 0 <= i < rest.len() && gcode_header(#[trigger] rest[i]) {
            let i = choose|i: int| 0 <= i < rest.len() && gcode_header(#[trigger] rest[i]);
            assert(ls[i + 1] == rest[i]);
        }
        if exists|i: int| 0 <= i < ls.len() && gcode_header(#[trigger] ls[i]) {
            let i = choose|i: int| 0 <= i < ls.len() && gcode_header(#[trigger] ls[i]);
            if i > 0 {
                assert(rest[i - 1] == ls[i]);
            }
        }
    }
}

/// The strict server accepts a G-code upload whatever other headers come
/// with it: header lines that give the length `n` (from 1 byte to
/// `MAX_UPLOAD`) and the type `text/x.gcode`, all others having some other
/// key, are accepted as an upload of `n` bytes.
pub proof fn law_strict_gcode_upload_accepted(h: Seq<char>, n: usize)
    requires
        1 <= n <= tcp::MAX_UPLOAD,
        forall|i: int|
            0 <= i < lines(h).len() ==> other_header(#[trigger] lines(h)[i]) || length_header(
                lines(h)[i],
                n,
            ) || gcode_header(lines(h)[i]),
        exists|i: int| 0 <= i < lines(h).len() && length_header(#[trigger] lines(h)[i], n),
        exists|i: int| 0 <= i < lines(h).len() && gcode_header(#[trigger] lines(h)[i]),
    ensures
        strict_put_result(h) == Ok::<usize, &'static str>(n),
{
    lemma_strict_headers_fold((0, false), lines(h), n);
}

fn strict_header_line(acc: (usize, bool), line: &[char]) -> (r: Option<(usize, bool)>)
    ensures
        r == strict_header(acc, line@),
{
    match split_once_chars(line, ':') {
        None => None,
        Some((k, v)) => {
            let lower_len = str_chars("content-length");
            let upper_len = str_chars("Content-Length");
            let lower_type = str_chars("content-type");
            let upper_type = str_chars("Content-Type");
            if eq_chars(&k, &lower_len) || eq_chars(&k, &upper_len) {
                let val = trim_chars(&v);
                match parse_usize_chars(&val) {
                    None => None,
                    Some(n) => Some((n, acc.1)),
                }
            } else if eq_chars(&k, &lower_type) || eq_chars(&k, &upper_type) {
                let val = trim_chars(&v);
                let gcode = str_chars("text/x.gcode");
                Some((acc.0, acc.1 || eq_chars(&val, &gcode)))
            } else {
                Some(acc)
            }
        },
    }
}

proof fn lemma_strict_headers_cons(acc: (usize, bool), l: Seq<char>, rest: Seq<Seq<char>>)
    ensures
        strict_headers(acc, seq![l] + rest) == match strict_header(acc, l) {
            None => None,
            Some(a) => strict_headers(a, rest),
        },
{
    let ls = seq![l] + rest;
    assert(ls[0] == l);
    assert(ls.drop_first() =~= rest);
}

/// Checks the headers of a PUT request for the strict server and returns
/// the content length to read.
pub fn check_put_header(headers: &str) -> (r: Result<usize, &'static str>)
    ensures
        r == strict_put_result(headers@),
{
    let s = str_chars(headers);
    let n = s.len();
    let mut acc: (usize, bool) = (0, false);
    let mut start: usize = 0;
    while start < n
        invariant
            n == s@.len(),
            s@ == headers@,
            start <= n,
            strict_headers(acc, lines_from(s@, start as int)) == strict_headers(
                (0, false),
                lines(s@),
            ),
        decreases n - start,
    {
        proof {
            lemma_lines_step(s@, start as int);
        }
        let (line, next) = match find_char_from(&s, '\n', start) {
            Some(i) => (line_at(&s, start, i), i + 1),
            None => (copy_range(&s, start, n), n),
        };
        proof {
            lemma_strict_headers_cons(acc, line@, lines_from(s@, next as int));
            if next == n {
                assert(seq![line@] + lines_from(s@, next as int) =~= seq![line@]);
            }
            assert(lines_from(s@, start as int) == seq![line@] + lines_from(s@, next as int));
        }
        match strict_header_line(acc, &line) {
            None => {
                assert(strict_headers(acc, lines_from(s@, start as int)) is None);
                return Err(BAD_REQUEST);
            },
            Some(a) => {
                acc = a;
            },
        }
        start = next;
    }
    let (len, gcode) = acc;
    if !gcode || len == 0 || len > tcp::MAX_UPLOAD {
        Err(BAD_REQUEST)
    } else {
        Ok(len)
    }
}

/// What the strict server does with the first chunk of a request.
pub enum StrictRoute<'a> {
    /// Answer with the given fixed response.
    Respond(&'static str),
    /// Serve the upload form.
    Index,
    /// Store an upload of `size` bytes whose first bytes are `body`.
    Upload { size: usize, body: &'a [u8] },
}

/// The route that a first chunk takes with the strict server.
pub open spec fn strict_route_spec(first: Option<Seq<u8>>, r: StrictRoute) -> bool {
    match first {
        None => r == StrictRoute::Respond(BAD_REQUEST),
        Some(chunk) => match split_request_spec(chunk) {
            None => r == StrictRoute::Respond(BAD_REQUEST),
            Some((sb, hb, b)) => match start_line_result(decode_utf8(sb)) {
                Err(e) => r == StrictRoute::Respond(e),
                Ok(Method::Get) => r is Index,
                Ok(Method::Put) => match strict_put_result(decode_utf8(hb)) {
                    Err(e) => r == StrictRoute::Respond(e),
                    Ok(n) => r matches StrictRoute::Upload { size, body } && size == n && body@
                        == b,
                },
            },
        },
    }
}

/// Decides what the strict server does with the first chunk of a request.
pub fn route_request<'a>(first: Option<&'a [u8]>) -> (r: StrictRoute<'a>)
    ensures
        strict_route_spec(chunk_view(first), r),
{
    let chunk = match first {
        Some(c) => c,
        None => return StrictRoute::Respond(BAD_REQUEST),
    };
    let (start_line, headers, body) = match split_request(chunk) {
        Some(p) => p,
        None => return StrictRoute::Respond(BAD_REQUEST),
    };
    proof {
        broadcast use vstd::utf8::encode_utf8_decode_utf8;
    }
    let method = match check_start_line(start_line) {
        Ok(m) => m,
        Err(e) => return StrictRoute::Respond(e),
    };
    match method {
        Method::Get => StrictRoute::Index,
        Method::Put => match check_put_header(headers) {
            Err(e) => StrictRoute::Respond(e),
            Ok(size) => StrictRoute::Upload { size, body },
        },
    }
}

} // verus!
