//! The web server's request handling: splitting a request into its start
//! line, headers and body, routing `GET /` and `PUT /`, reading the upload
//! headers, and accounting for the bytes of an upload as they arrive.
use vstd::prelude::*;
use vstd::utf8::{decode_utf8, valid_utf8};
use vstd::string::StringSliceAdditionalSpecFns;

use crate::http::{Method, BAD_REQUEST, METHOD_NOT_ALLOWED};
use crate::kinds::{is_min_of, min_address};
use crate::ids::{new_uuid_v7, parse_uuid, uuid_parse, v7_uuid, IdError};
use crate::text::{
    copy_range, eq_chars, eq_ignore_ascii_case, eq_ignore_ascii_case_chars, find, find_bytes,
    find_char_from, lemma_find_from, line_at, lines, lines_from, parse_usize, parse_usize_chars,
    split_once, split_once_chars, str_chars, strip_cr, trim, trim_chars,
};

verus! {

// ---------------------------------------------------------------------------
// Splitting a request
// ---------------------------------------------------------------------------

/// Calls `core::str::from_utf8`, which accepts exactly the well-formed
/// UTF-8 byte strings and then views the same bytes as text.
#[verifier::external_body]
fn str_from_utf8(b: &[u8]) -> (r: Option<&str>)
    ensures
        r is Some <==> valid_utf8(b@),
        r matches Some(s) ==> s.spec_bytes() == b@,
{
    core::str::from_utf8(b).ok()
}

pub open spec fn crlf() -> Seq<u8> {
    seq![13u8, 10u8]
}

pub open spec fn crlf_crlf() -> Seq<u8> {
    seq![13u8, 10u8, 13u8, 10u8]
}

/// A request split at its first `\r\n` (ending the start line) and the
/// first `\r\n\r\n` after it (ending the headers), when both exist and the
/// start line and headers are UTF-8.
pub open spec fn split_request_spec(buf: Seq<u8>) -> Option<(Seq<u8>, Seq<u8>, Seq<u8>)> {
    match find(buf, crlf()) {
        None => None,
        Some(i) => {
            let rest = buf.subrange(i + 2, buf.len() as int);
            match find(rest, crlf_crlf()) {
                None => None,
                Some(j) => {
                    let start_line = buf.subrange(0, i);
                    let headers = rest.subrange(0, j);
                    let body = rest.subrange(j + 4, rest.len() as int);
                    if valid_utf8(start_line) && valid_utf8(headers) {
                        Some((start_line, headers, body))
                    } else {
                        None
                    }
                },
            }
        },
    }
}

/// Takes the incoming TCP request and separates the start line, headers
/// and body for further processing.
pub fn split_request(buf: &[u8]) -> (r: Option<(&str, &str, &[u8])>)
    ensures
        r is None <==> split_request_spec(buf@) is None,
        r matches Some((s, h, b)) ==> split_request_spec(buf@) == Some(
            (s.spec_bytes(), h.spec_bytes(), b@),
        ),
{
    let delim: [u8; 2] = [13u8, 10u8];
    assert(delim@ == crlf());
    let i = match find_bytes(buf, &delim) {
        Some(i) => i,
        None => return None,
    };
    proof {
        crate::text::lemma_find_from(buf@, crlf(), 0);
    }
    let (start_line, rest) = buf.split_at(i);
    let (_, rest) = rest.split_at(2);
    assert(rest@ =~= buf@.subrange(i + 2, buf@.len() as int));
    let delim2: [u8; 4] = [13u8, 10u8, 13u8, 10u8];
    assert(delim2@ == crlf_crlf());
    let j = match find_bytes(rest, &delim2) {
        Some(j) => j,
        None => return None,
    };
    proof {
        crate::text::lemma_find_from(rest@, crlf_crlf(), 0);
    }
    let (headers, rest2) = rest.split_at(j);
    let (_, body) = rest2.split_at(4);
    assert(body@ =~= rest@.subrange(j + 4, rest@.len() as int));
    let start_line = match str_from_utf8(start_line) {
        Some(s) => s,
        None => return None,
    };
    let headers = match str_from_utf8(headers) {
        Some(h) => h,
        None => return None,
    };
    Some((start_line, headers, body))
}

// ---------------------------------------------------------------------------
// The start line
// ---------------------------------------------------------------------------

/// The text of `s` before its first space (all of it when there is none).
pub open spec fn first_token(s: Seq<char>) -> Seq<char> {
    match find(s, seq![' ']) {
        Some(i) => s.subrange(0, i),
        None => s,
    }
}

/// The second space-separated token of `s`, if there is one.
pub open spec fn second_token(s: Seq<char>) -> Option<Seq<char>> {
    match find(s, seq![' ']) {
        Some(i) => Some(first_token(s.subrange(i + 1, s.len() as int))),
        None => None,
    }
}

/// Which start lines are served: `GET` or `PUT` as the method, then the
/// URL `/`.
pub open spec fn start_line_result(s: Seq<char>) -> Result<Method, &'static str> {
    let m = first_token(s);
    if m != "GET"@ && m != "PUT"@ {
        Err(METHOD_NOT_ALLOWED)
    } else {
        match second_token(s) {
            None => Err(BAD_REQUEST),
            Some(url) => if url == "/"@ {
                Ok(
                    if m == "GET"@ {
                        Method::Get
                    } else {
                        Method::Put
                    },
                )
            } else {
                Err(BAD_REQUEST)
            },
        }
    }
}

/// The characters of `s[start..]` before the next space.
fn token_from(s: &[char], start: usize) -> (r: (Vec<char>, Option<usize>))
    requires
        start <= s@.len(),
    ensures
        r.0@ == first_token(s@.subrange(start as int, s@.len() as int)),
        r.1 matches Some(i) ==> start <= i < s@.len() && find(
            s@.subrange(start as int, s@.len() as int),
            seq![' '],
        ) == Some(i - start),
        r.1 is None ==> find(s@.subrange(start as int, s@.len() as int), seq![' ']) is None,
{
    let n = s.len();
    let t = copy_range(s, start, n);
    match find_char_from(&t, ' ', 0) {
        Some(i) => {
            proof {
                lemma_find_from(t@, seq![' '], 0);
                assert(crate::text::matches_at(t@, seq![' '], i as int));
            }
            (copy_range(&t, 0, i), Some(start + i))
        },
        None => (t, None),
    }
}

/// Checks whether the start line is one the server responds to.
pub fn check_start_line(start_line: &str) -> (r: Result<Method, &'static str>)
    ensures
        r == start_line_result(start_line@),
{
    let s = str_chars(start_line);
    let (method, space) = token_from(&s, 0);
    assert(s@.subrange(0, s@.len() as int) =~= s@);
    let get = str_chars("GET");
    let put = str_chars("PUT");
    let is_get = eq_chars(&method, &get);
    let is_put = eq_chars(&method, &put);
    if !is_get && !is_put {
        return Err(METHOD_NOT_ALLOWED);
    }
    let m = if is_get {
        Method::Get
    } else {
        Method::Put
    };
    match space {
        None => Err(BAD_REQUEST),
        Some(i) => {
            let (url, _) = token_from(&s, i + 1);
            let slash = str_chars("/");
            if eq_chars(&url, &slash) {
                Ok(m)
            } else {
                Err(BAD_REQUEST)
            }
        },
    }
}

// ---------------------------------------------------------------------------
// The headers of an upload
// ---------------------------------------------------------------------------

/// The fields read from a PUT request's headers.
#[derive(Debug, Clone, Copy)]
pub struct PutInfo {
    pub size: Option<usize>,
    pub guid: Option<u128>,
    pub is_gcode: bool,
}

pub open spec fn no_info() -> PutInfo {
    PutInfo { size: None, guid: None, is_gcode: false }
}

/// One header line read into `info`: the name and value are split at the
/// first `:` and trimmed; `Content-Length` (any case) sets the size,
/// `Content-Type: text/x.gcode` marks the body as G-code and `guid` sets the
/// job's identifier. A line without `:` is skipped.
pub open spec fn apply_header(info: PutInfo, line: Seq<char>) -> PutInfo {
    match split_once(line, ':') {
        None => info,
        Some((k, v)) => {
            let key = trim(k);
            let val = trim(v);
            if eq_ignore_ascii_case(key, "content-length"@) {
                PutInfo { size: parse_usize(val), ..info }
            } else if eq_ignore_ascii_case(key, "content-type"@) && val == "text/x.gcode"@ {
                PutInfo { is_gcode: true, ..info }
            } else if eq_ignore_ascii_case(key, "guid"@) {
                PutInfo { guid: uuid_parse(val), ..info }
            } else {
                info
            }
        },
    }
}

/// The header lines read into `info` in order.
pub open spec fn apply_headers(info: PutInfo, ls: Seq<Seq<char>>) -> PutInfo
    decreases ls.len(),
{
    if ls.len() == 0 {
        info
    } else {
        apply_headers(apply_header(info, ls[0]), ls.drop_first())
    }
}

/// What a PUT request's headers say of the upload.
pub open spec fn put_info(headers: Seq<char>) -> PutInfo {
    apply_headers(no_info(), lines(headers))
}

fn apply_header_line(info: PutInfo, line: &[char]) -> (r: PutInfo)
    ensures
        r == apply_header(info, line@),
{
    match split_once_chars(line, ':') {
        None => info,
        Some((k, v)) => {
            let key = trim_chars(&k);
            let val = trim_chars(&v);
            let content_length = str_chars("content-length");
            let content_type = str_chars("content-type");
            let gcode = str_chars("text/x.gcode");
            let guid = str_chars("guid");
            if eq_ignore_ascii_case_chars(&key, &content_length) {
                PutInfo { size: parse_usize_chars(&val), ..info }
            } else if eq_ignore_ascii_case_chars(&key, &content_type) && eq_chars(&val, &gcode) {
                PutInfo { is_gcode: true, ..info }
            } else if eq_ignore_ascii_case_chars(&key, &guid) {
                PutInfo { guid: parse_uuid(&val), ..info }
            } else {
                info
            }
        },
    }
}

/// One step of `lines_from`: the line that starts at `start` and where the
/// next one starts.
pub proof fn lemma_lines_step(s: Seq<char>, start: int)
    requires
        0 <= start < s.len(),
    ensures
        find_from_nl(s, start) matches Some(i) ==> start <= i < s.len() && lines_from(s, start)
            == seq![strip_cr(s.subrange(start, i))] + lines_from(s, i + 1),
        find_from_nl(s, start) is None ==> lines_from(s, start) == seq![
            s.subrange(start, s.len() as int),
        ],
{
    lemma_find_from(s, seq!['\n'], start);
    if let Some(i) = find_from_nl(s, start) {
        assert(crate::text::matches_at(s, seq!['\n'], i));
    }
}

pub open spec fn find_from_nl(s: Seq<char>, start: int) -> Option<int> {
    crate::text::find_from(s, seq!['\n'], start)
}

pub(crate) proof fn lemma_apply_headers_cons(info: PutInfo, l: Seq<char>, rest: Seq<Seq<char>>)
    ensures
        apply_headers(info, seq![l] + rest) == apply_headers(apply_header(info, l), rest),
{
    let ls = seq![l] + rest;
    assert(ls[0] == l);
    assert(ls.drop_first() =~= rest);
}

/// Analyses the PUT headers for the information an upload needs.
pub fn check_put_header(headers: &str) -> (r: PutInfo)
    ensures
        r == put_info(headers@),
{
    let s = str_chars(headers);
    let n = s.len();
    let mut info = PutInfo { size: None, guid: None, is_gcode: false };
    let mut start: usize = 0;
    while start < n
        invariant
            n == s@.len(),
            start <= n,
            apply_headers(info, lines_from(s@, start as int)) == put_info(s@),
        decreases n - start,
    {
        proof {
            lemma_lines_step(s@, start as int);
        }
        match find_char_from(&s, '\n', start) {
            Some(i) => {
                let line = line_at(&s, start, i);
                proof {
                    lemma_apply_headers_cons(
                        info,
                        line@,
                        lines_from(s@, i + 1),
                    );
                }
                info = apply_header_line(info, &line);
                start = i + 1;
            },
            None => {
                let line = copy_range(&s, start, n);
                proof {
                    lemma_apply_headers_cons(info, line@, seq![]);
                    assert(seq![line@] + Seq::<Seq<char>>::empty() =~= seq![line@]);
                }
                info = apply_header_line(info, &line);
                start = n;
            },
        }
    }
    info
}

// ---------------------------------------------------------------------------
// Routing
// ---------------------------------------------------------------------------

/// The largest upload accepted, in bytes.
pub const MAX_UPLOAD: usize = 1_000_000;

/// Whether an upload with these headers is accepted: it must be G-code
/// with a size between 1 and `MAX_UPLOAD` bytes. The size is returned.
pub open spec fn upload_size(info: PutInfo) -> Option<usize> {
    if !info.is_gcode {
        None
    } else {
        match info.size {
            None => None,
            Some(s) => if s == 0 || s > MAX_UPLOAD {
                None
            } else {
                Some(s)
            },
        }
    }
}

pub fn check_upload(info: &PutInfo) -> (r: Option<usize>)
    ensures
        r == upload_size(*info),
{
    if !info.is_gcode {
        return None;
    }
    match info.size {
        None => None,
        Some(s) => if s == 0 || s > MAX_UPLOAD {
            None
        } else {
            Some(s)
        },
    }
}

/// What the server does with the first packet of a connection.
pub enum Route<'a> {
    /// Answer with the given fixed response.
    Respond(&'static str),
    /// Serve the upload form.
    Index,
    /// Store an upload of `size` bytes whose first bytes are `body`.
    Upload { info: PutInfo, size: usize, body: &'a [u8] },
    /// Send the request on to the machine at this address.
    Redirect(u32),
}

/// The bytes of an optional chunk.
pub open spec fn chunk_view(first: Option<&[u8]>) -> Option<Seq<u8>> {
    match first {
        Some(c) => Some(c@),
        None => None,
    }
}

/// The route that a first chunk `first` takes.
pub open spec fn route_spec(first: Option<Seq<u8>>, r: Route) -> bool {
    match first {
        None => r == Route::Respond(BAD_REQUEST),
        Some(chunk) => match split_request_spec(chunk) {
            None => r == Route::Respond(BAD_REQUEST),
            Some((sb, hb, b)) => match start_line_result(decode_utf8(sb)) {
                Err(e) => r == Route::Respond(e),
                Ok(Method::Get) => r is Index,
                Ok(Method::Put) => match upload_size(put_info(decode_utf8(hb))) {
                    None => r == Route::Respond(BAD_REQUEST),
                    Some(n) => r matches Route::Upload { info, size, body } && info == put_info(
                        decode_utf8(hb),
                    ) && size == n && body@ == b,
                },
            },
        },
    }
}

/// Decides what to do with the first chunk of a connection's first packet:
/// no chunk or an unsplittable request is a bad request; the start line
/// must be `GET /` or `PUT /`; a PUT must carry acceptable upload headers.
pub fn route_request<'a>(first: Option<&'a [u8]>) -> (r: Route<'a>)
    ensures
        route_spec(chunk_view(first), r),
{
    let chunk = match first {
        Some(c) => c,
        None => return Route::Respond(BAD_REQUEST),
    };
    let (start_line, headers, body) = match split_request(chunk) {
        Some(p) => p,
        None => return Route::Respond(BAD_REQUEST),
    };
    proof {
        broadcast use vstd::utf8::encode_utf8_decode_utf8;
    }
    let method = match check_start_line(start_line) {
        Ok(m) => m,
        Err(e) => return Route::Respond(e),
    };
    match method {
        Method::Get => Route::Index,
        Method::Put => {
            let info = check_put_header(headers);
            match check_upload(&info) {
                None => Route::Respond(BAD_REQUEST),
                Some(size) => Route::Upload { info, size, body },
            }
        },
    }
}

/// A busy machine sends an upload on: while it is not idle, an upload goes
/// to another machine, the one with the lowest address among `others`;
/// with no other machine known it keeps the upload. Every other route
/// stays as it is.
pub fn route_when_busy<'a>(r: Route<'a>, idle: bool, others: &Vec<u32>) -> (out: Route<'a>)
    ensures
        !(r is Upload) || idle || others@.len() == 0 ==> out == r,
        r is Upload && !idle && others@.len() > 0 ==> (out matches Route::Redirect(a) && is_min_of(
            others@,
            a,
        )),
{
    match r {
        Route::Upload { info, size, body } => {
            if idle {
                Route::Upload { info, size, body }
            } else {
                match min_address(others) {
                    Some(a) => Route::Redirect(a),
                    None => Route::Upload { info, size, body },
                }
            }
        },
        other => other,
    }
}

// ---------------------------------------------------------------------------
// Receiving an upload
// ---------------------------------------------------------------------------

/// The bytes of an upload still expected.
pub struct Upload {
    pub remaining: usize,
}

impl Upload {
    /// An upload that expects `size` bytes.
    pub fn new(size: usize) -> (r: Upload)
        ensures
            r.remaining == size,
    {
        Upload { remaining: size }
    }

    /// A chunk of `len` bytes arrives: its first `n` bytes belong to the
    /// upload, the rest is ignored.
    pub fn take(&mut self, len: usize) -> (n: usize)
        ensures
            n == if old(self).remaining < len {
                old(self).remaining
            } else {
                len
            },
            final(self).remaining == old(self).remaining - n,
    {
        let n = if self.remaining < len {
            self.remaining
        } else {
            len
        };
        self.remaining = self.remaining - n;
        n
    }

    /// A chunk arrives: the part of it that belongs to the upload, to be
    /// written to the file.
    pub fn accept<'a>(&mut self, chunk: &'a [u8]) -> (r: &'a [u8])
        ensures
            r@ == chunk@.take(
                if old(self).remaining < chunk@.len() {
                    old(self).remaining as int
                } else {
                    chunk@.len() as int
                },
            ),
            final(self).remaining == old(self).remaining - r@.len(),
    {
        let n = self.take(chunk.len());
        let (part, _) = chunk.split_at(n);
        assert(part@ =~= chunk@.take(n as int));
        part
    }

    /// Whether every expected byte has arrived.
    pub fn is_complete(&self) -> (r: bool)
        ensures
            r == (self.remaining == 0),
    {
        self.remaining == 0
    }
}

/// What to do with the next event of an upload.
pub enum UploadStep<'a> {
    /// Write these bytes to the file; more are expected.
    Write(&'a [u8]),
    /// Write these bytes; every expected byte has then arrived: close the
    /// file, keep it under its finished name and answer `OK`.
    Finish(&'a [u8]),
    /// The connection ended before every byte arrived: close the file,
    /// delete it and answer nothing.
    Abandon,
}

/// The bytes a step writes to the file.
pub open spec fn step_part(r: UploadStep) -> Seq<u8> {
    match r {
        UploadStep::Write(w) => w@,
        UploadStep::Finish(w) => w@,
        UploadStep::Abandon => Seq::empty(),
    }
}

/// One chunk taken by an upload expecting `before` bytes: the first bytes
/// of the chunk, as many as are still expected, are written (`part`), and
/// `after` bytes are then expected.
pub open spec fn chunk_step(before: nat, chunk: Seq<u8>, part: Seq<u8>, after: nat) -> bool {
    let n = if before < chunk.len() {
        before
    } else {
        chunk.len()
    };
    &&& part == chunk.take(n as int)
    &&& after == before - n
}

impl Upload {
    /// Decides the next step of an upload when the connection hands over a
    /// chunk (`Some`) or ends (`None`): the part of a chunk that belongs to
    /// the upload is written, and the upload finishes once nothing more is
    /// expected; an end before that abandons it.
    pub fn step<'a>(&mut self, event: Option<&'a [u8]>) -> (r: UploadStep<'a>)
        ensures
            event is None ==> final(self).remaining == old(self).remaining && if old(self).remaining
                == 0 {
                r matches UploadStep::Finish(w) && w@.len() == 0
            } else {
                r is Abandon
            },
            event matches Some(c) ==> {
                let n = if old(self).remaining < c@.len() {
                    old(self).remaining as int
                } else {
                    c@.len() as int
                };
                &&& final(self).remaining == old(self).remaining - n
                &&& final(self).remaining == 0 ==> (r matches UploadStep::Finish(w) && w@ == c@.take(n))
                &&& final(self).remaining > 0 ==> (r matches UploadStep::Write(w) && w@ == c@.take(n))
            },
            event matches Some(c) ==> chunk_step(
                old(self).remaining as nat,
                c@,
                step_part(r),
                final(self).remaining as nat,
            ),
    {
        match event {
            None => {
                if self.remaining == 0 {
                    let empty: &'a [u8] = &[];
                    UploadStep::Finish(empty)
                } else {
                    UploadStep::Abandon
                }
            },
            Some(chunk) => {
                let part = self.accept(chunk);
                if self.remaining == 0 {
                    UploadStep::Finish(part)
                } else {
                    UploadStep::Write(part)
                }
            },
        }
    }
}

/// The bytes written for an upload expecting `remaining` bytes when chunks
/// of the lengths `lens` arrive in order.
pub open spec fn written(remaining: nat, lens: Seq<nat>) -> nat
    decreases lens.len(),
{
    if lens.len() == 0 {
        0
    } else {
        let n = if remaining < lens[0] {
            remaining
        } else {
            lens[0]
        };
        n + written((remaining - n) as nat, lens.drop_first())
    }
}

pub open spec fn total(lens: Seq<nat>) -> nat
    decreases lens.len(),
{
    if lens.len() == 0 {
        0
    } else {
        lens[0] + total(lens.drop_first())
    }
}

/// The bytes stored for an upload expecting `remaining` bytes when the
/// chunks `chunks` arrive in order.
pub open spec fn stored(remaining: nat, chunks: Seq<Seq<u8>>) -> Seq<u8>
    decreases chunks.len(),
{
    if chunks.len() == 0 {
        Seq::empty()
    } else {
        let n = if remaining < chunks[0].len() {
            remaining
        } else {
            chunks[0].len()
        };
        chunks[0].take(n as int) + stored((remaining - n) as nat, chunks.drop_first())
    }
}

/// The bytes of the chunks, one after another.
pub open spec fn concat(chunks: Seq<Seq<u8>>) -> Seq<u8>
    decreases chunks.len(),
{
    if chunks.len() == 0 {
        Seq::empty()
    } else {
        chunks[0] + concat(chunks.drop_first())
    }
}

/// What is stored of an upload is what was sent: however the bytes are
/// split into chunks, the file holds the first `remaining` bytes of the
/// stream, or all of it when less arrived.
pub proof fn law_upload_stores_sent_bytes(remaining: nat, chunks: Seq<Seq<u8>>)
    ensures
        stored(remaining, chunks) == concat(chunks).take(
            if remaining < concat(chunks).len() {
                remaining as int
            } else {
                concat(chunks).len() as int
            },
        ),
    decreases chunks.len(),
{
    if chunks.len() > 0 {
        let c = chunks[0];
        let n = if remaining < c.len() {
            remaining
        } else {
            c.len()
        };
        let rest = chunks.drop_first();
        law_upload_stores_sent_bytes((remaining - n) as nat, rest);
        let all = concat(chunks);
        assert(all == c + concat(rest));
        let k = if remaining < all.len() {
            remaining as int
        } else {
            all.len() as int
        };
        if remaining < c.len() {
            assert(stored((remaining - n) as nat, rest) =~= Seq::<u8>::empty());
            assert(c.take(n as int) =~= all.take(k));
        } else {
            assert(c.take(n as int) =~= c);
            assert(c + concat(rest).take(k - c.len()) =~= all.take(k));
        }
    }
}

/// Successive steps of an upload store what `stored` says: when an upload
/// expecting `rems[0]` bytes takes the chunks `chunks` in order, each call
/// of `Upload::step` a `chunk_step` from one count to the next, the parts
/// written, one after another, are `stored(rems[0], chunks)`.
pub proof fn law_steps_store_what_was_sent(rems: Seq<nat>, chunks: Seq<Seq<u8>>, parts: Seq<Seq<u8>>)
    requires
        rems.len() == chunks.len() + 1,
        parts.len() == chunks.len(),
        forall|i: int|
            #![trigger chunks[i]]
            0 <= i < chunks.len() ==> chunk_step(rems[i], chunks[i], parts[i], rems[i + 1]),
    ensures
        concat(parts) == stored(rems[0], chunks),
    decreases chunks.len(),
{
    if chunks.len() > 0 {
        let c0 = chunks[0];
        assert(chunk_step(rems[0], c0, parts[0], rems[1]));
        let r2 = rems.drop_first();
        let c2 = chunks.drop_first();
        let p2 = parts.drop_first();
        assert forall|i: int| #![trigger c2[i]] 0 <= i < c2.len() implies chunk_step(r2[i], c2[i], p2[i], r2[i + 1]) by {
            let c = chunks[i + 1];
            assert(c2[i] == c);
        }
        law_steps_store_what_was_sent(r2, c2, p2);
    }
}

/// However the bytes of an upload are split into chunks, exactly
/// `min(remaining, total received)` of them are written: never more than the
/// announced length, and all of it once that much has arrived.
pub proof fn law_upload_writes_announced_length(remaining: nat, lens: Seq<nat>)
    ensures
        written(remaining, lens) == if remaining < total(lens) {
            remaining
        } else {
            total(lens)
        },
    decreases lens.len(),
{
    if lens.len() > 0 {
        let n = if remaining < lens[0] {
            remaining
        } else {
            lens[0]
        };
        law_upload_writes_announced_length((remaining - n) as nat, lens.drop_first());
    }
}

/// The job an accepted upload is stored as, and whether it is new to the
/// network: the identifier its headers gave, or else a fresh version 7 UUID
/// made at `now_ms`, which fails when the random number source does.
pub fn upload_job(info: &PutInfo, now_ms: u64) -> (r: Result<(u128, bool), IdError>)
    ensures
        info.guid matches Some(g) ==> r == Ok::<(u128, bool), IdError>((g, false)),
        info.guid is None ==> (r matches Ok((id, fresh)) ==> fresh && exists|b: [u8; 10]|
            id as int == #[trigger] v7_uuid(now_ms, b@)),
        info.guid is None ==> (r matches Err(e) ==> e == IdError::NoRandomness),
{
    match info.guid {
        Some(g) => Ok((g, false)),
        None => match new_uuid_v7(now_ms) {
            Ok(id) => Ok((id, true)),
            Err(e) => Err(e),
        },
    }
}

/// After a new upload: if this machine, at `my_addr` when it has one, owns
/// the ledger, the job joins it; otherwise the network must be alerted to
/// the new job, unless no other machine is known. Returns whether to send
/// that alert.
pub fn append_to_ledger(
    guid: u128,
    book_is_empty: bool,
    jobs: &mut Option<crate::kinds::LedgerState>,
    my_addr: Option<u32>,
) -> (send_alert: bool)
    ensures
        ({
            let owns = *old(jobs) matches Some(st) && my_addr == Some(st.ledger.owner);
            &&& owns ==> (*final(jobs) matches Some(st2) && st2.ledger.owner
                == old(jobs)->0.ledger.owner && st2.received == old(jobs)->0.received
                && st2.ledger.jobs@ == crate::tasks::messages::job_inserted(
                old(jobs)->0.ledger.jobs@,
                guid,
            ))
            &&& !owns ==> *final(jobs) == *old(jobs)
            &&& send_alert == (!owns && !book_is_empty)
        }),
{
    let is_owner = match jobs {
        Some(st) => {
            if st.is_owner(my_addr) {
                let _ = st.ledger.jobs.insert(guid);
                true
            } else {
                false
            }
        },
        None => false,
    };
    !is_owner && !book_is_empty
}

} // verus!
