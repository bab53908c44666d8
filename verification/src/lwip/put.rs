//! Sending a finished job's file to another printer with an HTTP `PUT`:
//! what goes into the request, and the decisions made as lwIP reports on
//! the connection.
use vstd::prelude::*;
use vstd::utf8::{decode_utf8, encode_utf8, is_ascii_chars, valid_utf8};

use super::bindings::err_t;
use super::host_order;
use super::to_host_order;
use crate::fs::{job_path, lemma_hyphenated_ascii, make_path, stat, stat_path, FResult};
use crate::http::{ascii_bytes, lemma_decimal_ascii, push_ascii};
use crate::ids::{hyphenated, lemma_hyphenated_chars, to_hyphenated};
use crate::http::Method;
use crate::tasks::tcp::{
    apply_header, crlf, crlf_crlf, first_token, route_spec, upload_size, Route, MAX_UPLOAD, lemma_apply_headers_cons, lemma_lines_step, no_info,
    put_info, split_request_spec, start_line_result, PutInfo,
};
use crate::text::{
    eq_ignore_ascii_case, is_whitespace, lemma_parse_decimal, split_once, trim, trim_end, trim_start,
    lemma_find_one_none, lines, strip_cr, copy_range, decimal, decimal_string, lemma_decimal_digits, lemma_find_first_at,
    lemma_find_one_at, matches_at, str_chars,
};

verus! {

/// The capacity of the staging buffer between the file and `tcp_write`.
pub const BUF_CAP: usize = 1024;

/// The bytes waiting to be handed to `tcp_write`, in a
/// `heapless::Vec<u8, 1024>`.
#[verifier::external_body]
pub struct StagingBuffer {
    inner: heapless::Vec<u8, 1024>,
}

/// The bytes a staging buffer holds, oldest first.
pub uninterp spec fn staged(b: StagingBuffer) -> Seq<u8>;

impl View for StagingBuffer {
    type V = Seq<u8>;

    open spec fn view(&self) -> Seq<u8> {
        staged(*self)
    }
}

/// Calls `heapless::Vec::new`: the buffer starts empty.
#[verifier::external_body]
fn staging_new() -> (r: StagingBuffer)
    ensures
        staged(r) == Seq::<u8>::empty(),
{
    StagingBuffer { inner: heapless::Vec::new() }
}

/// Calls `heapless::Vec::len`: the number of bytes held, never more than
/// the capacity.
#[verifier::external_body]
fn staging_len(b: &StagingBuffer) -> (r: usize)
    ensures
        r == staged(*b).len(),
        r <= 1024,
{
    b.inner.len()
}

/// Calls `heapless::Vec::capacity`, which is the 1024 the type was made with.
#[verifier::external_body]
fn staging_capacity(b: &StagingBuffer) -> (r: usize)
    ensures
        r == 1024,
{
    b.inner.capacity()
}

/// Calls `heapless::Vec::extend_from_slice`: the bytes are appended if
/// they all fit, and nothing changes otherwise.
#[verifier::external_body]
fn staging_extend(b: &mut StagingBuffer, other: &[u8]) -> (r: Result<(), ()>)
    ensures
        staged(*old(b)).len() + other@.len() <= 1024 ==> r is Ok && staged(*final(b)) == staged(
            *old(b),
        ) + other@,
        staged(*old(b)).len() + other@.len() > 1024 ==> r is Err && staged(*final(b)) == staged(
            *old(b),
        ),
{
    match b.inner.extend_from_slice(other) {
        Ok(()) => Ok(()),
        Err(_) => Err(()),
    }
}

/// Calls `heapless::Vec::as_slice`, copying the bytes out.
#[verifier::external_body]
fn staging_contents(b: &StagingBuffer) -> (r: Vec<u8>)
    ensures
        r@ == staged(*b),
{
    b.inner.as_slice().to_vec()
}

/// Calls `heapless::Vec::drain` on the first `n` bytes, dropping them.
#[verifier::external_body]
fn staging_drain_front(b: &mut StagingBuffer, n: usize)
    requires
        n <= staged(*old(b)).len(),
    ensures
        staged(*final(b)) == staged(*old(b)).skip(n as int),
{
    b.inner.drain(..n);
}

impl StagingBuffer {
    pub fn new() -> (r: StagingBuffer)
        ensures
            r@ == Seq::<u8>::empty(),
    {
        staging_new()
    }

    pub fn len(&self) -> (r: usize)
        ensures
            r == self@.len(),
            r <= BUF_CAP,
    {
        staging_len(self)
    }

    /// Appends `bytes` if they all fit; leaves the buffer as it was
    /// otherwise.
    pub fn extend_from_slice(&mut self, bytes: &[u8]) -> (r: Result<(), ()>)
        ensures
            old(self)@.len() + bytes@.len() <= BUF_CAP ==> r is Ok && final(self)@ == old(self)@
                + bytes@,
            old(self)@.len() + bytes@.len() > BUF_CAP ==> r is Err && final(self)@ == old(self)@,
    {
        staging_extend(self, bytes)
    }
}

// ---------------------------------------------------------------------------
// One pump: top up from the file, offer lwIP what it has room for
// ---------------------------------------------------------------------------

/// The staged bytes after topping up from the file, which gave `got`: a
/// full buffer is not topped up.
pub open spec fn topped_up(before: Seq<u8>, got: Seq<u8>) -> Seq<u8> {
    if before.len() < BUF_CAP {
        before + got
    } else {
        before
    }
}

/// How many staged bytes are offered to `tcp_write`: as many as lwIP has
/// room for.
pub open spec fn offer_len(filled: Seq<u8>, room: u16) -> nat {
    if filled.len() < room {
        filled.len()
    } else {
        room as nat
    }
}

/// The staged bytes and the result after offering `n` bytes and
/// `tcp_write` answering `err`: nothing offered is no error; bytes lwIP
/// took are dropped; when lwIP is out of memory they stay for the next
/// try; any other error is reported with the bytes kept.
pub open spec fn after_write(filled: Seq<u8>, n: nat, err: err_t) -> (Seq<u8>, Result<(), err_t>) {
    if n == 0 {
        (filled, Ok(()))
    } else if err == err_t::Success {
        (filled.skip(n as int), Ok(()))
    } else if err == err_t::Mem {
        (filled, Ok(()))
    } else {
        (filled, Err(err))
    }
}

/// One pump as a step on plain values: from the staged bytes `before`, the
/// file gave `got`, lwIP had `room` bytes of send buffer, `tcp_write` was
/// offered `w` and answered `err`, and `after` is left staged.
pub open spec fn pump_step(before: Seq<u8>, got: Seq<u8>, room: u16, w: Seq<u8>, err: err_t, after: Seq<u8>) -> bool {
    let filled = topped_up(before, got);
    let n = offer_len(filled, room);
    &&& n > 0 ==> w == filled.take(n as int)
    &&& after == after_write(filled, n, err).0
}

/// One pump never loses or repeats a byte: what it hands lwIP, followed by
/// what stays staged, is exactly what was staged before followed by what
/// was read from the file.
pub proof fn law_pump_loses_nothing(before: Seq<u8>, got: Seq<u8>, room: u16, w: Seq<u8>, err: err_t, after: Seq<u8>)
    requires
        pump_step(before, got, room, w, err, after),
    ensures
        step_handed(topped_up(before, got), room, w, err) + after == topped_up(before, got),
{
    let filled = topped_up(before, got);
    let n = offer_len(filled, room);
    if n > 0 && err == err_t::Success {
        assert(filled.take(n as int) + filled.skip(n as int) =~= filled);
    } else {
        assert(Seq::<u8>::empty() + filled =~= filled);
    }
}

/// The bytes a step hands lwIP: those offered, when `tcp_write` took them.
pub open spec fn step_handed(filled: Seq<u8>, room: u16, w: Seq<u8>, err: err_t) -> Seq<u8> {
    if offer_len(filled, room) > 0 && err == err_t::Success {
        w
    } else {
        Seq::empty()
    }
}

/// The bytes handed to lwIP by the first `k` of the steps `steps` (each the
/// file's bytes, the room, the bytes offered and the answer), taken from the
/// staged bytes `states`.
pub open spec fn sent_so_far(states: Seq<Seq<u8>>, steps: Seq<(Seq<u8>, u16, Seq<u8>, err_t)>, k: nat) -> Seq<u8>
    decreases k,
{
    if k == 0 {
        Seq::empty()
    } else {
        let i = k - 1;
        sent_so_far(states, steps, (k - 1) as nat) + step_handed(
            topped_up(states[i], steps[i].0),
            steps[i].1,
            steps[i].2,
            steps[i].3,
        )
    }
}

/// The file's bytes taken into the staging buffer by the first `k` steps:
/// a full buffer takes none.
pub open spec fn read_so_far(states: Seq<Seq<u8>>, steps: Seq<(Seq<u8>, u16, Seq<u8>, err_t)>, k: nat) -> Seq<u8>
    decreases k,
{
    if k == 0 {
        Seq::empty()
    } else {
        let i = k - 1;
        read_so_far(states, steps, (k - 1) as nat) + if states[i].len() < BUF_CAP {
            steps[i].0
        } else {
            Seq::empty()
        }
    }
}

/// Pumping loses and repeats nothing over any number of calls: when the
/// staging buffer starts with the request's head `states[0]` and each call
/// is a step from one state to the next, then after every call the bytes
/// handed to lwIP so far, followed by what is still staged, are the head
/// followed by the file's bytes read so far; and a reader that gives no
/// more than asked keeps the buffer within its capacity.
pub proof fn law_pumping_loses_nothing(states: Seq<Seq<u8>>, steps: Seq<(Seq<u8>, u16, Seq<u8>, err_t)>)
    requires
        states.len() == steps.len() + 1,
        states[0].len() <= BUF_CAP,
        forall|i: int|
            0 <= i < steps.len() ==> #[trigger] pump_step(
                states[i],
                steps[i].0,
                steps[i].1,
                steps[i].2,
                steps[i].3,
                states[i + 1],
            ),
        forall|i: int|
            0 <= i < steps.len() && states[i].len() < BUF_CAP ==> (#[trigger] steps[i].0).len() <= BUF_CAP
                - states[i].len(),
    ensures
        forall|k: int|
            0 <= k < states.len() ==> sent_so_far(states, steps, k as nat) + #[trigger] states[k]
                == states[0] + read_so_far(states, steps, k as nat) && states[k].len() <= BUF_CAP,
{
    assert forall|k: int| 0 <= k < states.len() implies sent_so_far(states, steps, k as nat)
        + #[trigger] states[k] == states[0] + read_so_far(states, steps, k as nat)
        && states[k].len() <= BUF_CAP by {
        lemma_pumping_prefix(states, steps, k as nat);
    }
}

proof fn lemma_pumping_prefix(states: Seq<Seq<u8>>, steps: Seq<(Seq<u8>, u16, Seq<u8>, err_t)>, k: nat)
    requires
        k < states.len(),
        states.len() == steps.len() + 1,
        states[0].len() <= BUF_CAP,
        forall|i: int|
            0 <= i < steps.len() ==> #[trigger] pump_step(
                states[i],
                steps[i].0,
                steps[i].1,
                steps[i].2,
                steps[i].3,
                states[i + 1],
            ),
        forall|i: int|
            0 <= i < steps.len() && states[i].len() < BUF_CAP ==> (#[trigger] steps[i].0).len() <= BUF_CAP
                - states[i].len(),
    ensures
        sent_so_far(states, steps, k) + states[k as int] == states[0] + read_so_far(states, steps, k),
        states[k as int].len() <= BUF_CAP,
    decreases k,
{
    if k == 0 {
        assert(Seq::<u8>::empty() + states[0] =~= states[0] + Seq::<u8>::empty());
    } else {
        let i = k - 1;
        lemma_pumping_prefix(states, steps, (k - 1) as nat);
        assert(pump_step(states[i], steps[i].0, steps[i].1, steps[i].2, steps[i].3, states[i + 1]));
        let before = states[i];
        let got = steps[i].0;
        let filled = topped_up(before, got);
        let n = offer_len(filled, steps[i].1);
        let taken = if before.len() < BUF_CAP { got } else { Seq::<u8>::empty() };
        assert(filled =~= before + taken);
        let h = step_handed(filled, steps[i].1, steps[i].2, steps[i].3);
        if n > 0 && steps[i].3 == err_t::Success {
            assert(filled.take(n as int) + filled.skip(n as int) =~= filled);
            assert(h + states[k as int] =~= filled);
        } else {
            assert(h + states[k as int] =~= filled);
        }
        let sp = sent_so_far(states, steps, (k - 1) as nat);
        let rp = read_so_far(states, steps, (k - 1) as nat);
        assert(sent_so_far(states, steps, k) == sp + h);
        assert(read_so_far(states, steps, k) == rp + taken);
        assert(sp + h + states[k as int] =~= sp + (h + states[k as int]));
        assert(sp + filled =~= (sp + before) + taken);
        assert(states[0] + rp + taken =~= states[0] + (rp + taken));
    }
}

// One pump is four steps, each handing the next call back to the caller:
// `pump_need` says how much of the file to read, if anything; `pump_fill`
// stages what was read; `pump_offer` says what to hand `tcp_write`, if
// anything; `pump_written` applies its answer and says whether
// `tcp_output` follows. Carried out in this order they make a `pump_step`.

/// How many bytes of the file to read: as many as the staging buffer has
/// room for, or none at all (no read) when it is full.
pub fn pump_need(buf: &StagingBuffer) -> (r: Option<usize>)
    ensures
        buf@.len() < BUF_CAP ==> r == Some((BUF_CAP - buf@.len()) as usize),
        buf@.len() >= BUF_CAP ==> r is None,
{
    let len = buf.len();
    let free = staging_capacity(buf) - len;
    if free > 0 {
        Some(free)
    } else {
        None
    }
}

/// Stages the bytes `got` read from the file.
pub fn pump_fill(buf: &mut StagingBuffer, got: &[u8])
    requires
        old(buf)@.len() < BUF_CAP,
        got@.len() <= BUF_CAP - old(buf)@.len(),
    ensures
        final(buf)@ == topped_up(old(buf)@, got@),
{
    let _ = buf.extend_from_slice(got);
}

/// What to hand `tcp_write`, given lwIP's `room` of send buffer: the first
/// staged bytes, as many as fit, or nothing at all (no write) when none
/// fit or none are staged.
pub fn pump_offer(buf: &StagingBuffer, room: u16) -> (r: Option<Vec<u8>>)
    ensures
        offer_len(buf@, room) == 0 ==> r is None,
        offer_len(buf@, room) > 0 ==> (r matches Some(w) && w@ == buf@.take(offer_len(buf@, room) as int)),
{
    let len = buf.len();
    let n: usize = if len < room as usize {
        len
    } else {
        room as usize
    };
    if n == 0 {
        return None;
    }
    let contents = staging_contents(buf);
    let offered = copy_range(contents.as_slice(), 0, n);
    assert(offered@ =~= buf@.take(n as int));
    Some(offered)
}

/// Applies `tcp_write`'s answer `err` to the `n` bytes offered: the staged
/// bytes and the result are those of `after_write`, and `tcp_output`
/// follows (the second of the pair) exactly when the write succeeded.
pub fn pump_written(buf: &mut StagingBuffer, n: usize, err: err_t) -> (r: (Result<(), err_t>, bool))
    requires
        0 < n <= old(buf)@.len(),
    ensures
        (final(buf)@, r.0) == after_write(old(buf)@, n as nat, err),
        r.1 == (err == err_t::Success),
{
    if err != err_t::Success {
        let r = if err == err_t::Mem {
            Ok(())
        } else {
            Err(err)
        };
        return (r, false);
    }
    staging_drain_front(buf, n);
    (Ok(()), true)
}

/// The four calls of one pump make a `pump_step`: from `before`, the file
/// gave `got` (nothing when `pump_need` asked for no read), `pump_offer`
/// answered `offered` for `room`, and, when it offered bytes, `tcp_write`
/// answered `err` and `pump_written` left `after`.
pub proof fn lemma_pump_calls_make_a_step(
    before: Seq<u8>,
    got: Seq<u8>,
    room: u16,
    offered: Option<Seq<u8>>,
    err: err_t,
    after: Seq<u8>,
)
    requires
        offer_len(topped_up(before, got), room) == 0 ==> offered is None && after == topped_up(before, got),
        offer_len(topped_up(before, got), room) > 0 ==> offered == Some(
            topped_up(before, got).take(offer_len(topped_up(before, got), room) as int),
        ) && after == after_write(
            topped_up(before, got),
            offer_len(topped_up(before, got), room),
            err,
        ).0,
    ensures
        pump_step(
            before,
            got,
            room,
            match offered {
                Some(w) => w,
                None => Seq::empty(),
            },
            err,
            after,
        ),
{
}

/// What lwIP and the waiting task are told after a pump that gave `pr`.
pub fn pump_reply(pr: Result<(), err_t>) -> (r: Reply)
    ensures
        r == reply_of(pr),
{
    match pr {
        Ok(()) => Reply { ret: err_t::Success, signal: None },
        Err(e) => Reply { ret: e, signal: Some(e) },
    }
}

// ---------------------------------------------------------------------------
// The request
// ---------------------------------------------------------------------------

/// The head of the `PUT` request for the job `guid` whose file holds
/// `fsize` bytes. The line after `Content-Type` is followed by a bare
/// newline before `Content-Length`.
pub open spec fn put_headers_text(guid: u128, fsize: u32) -> Seq<char> {
    "PUT / HTTP/1.1\r\nguid: "@ + hyphenated(guid) + "\r\nContent-Type: text/x.gcode\r\n\nContent-Length: "@
        + decimal(fsize as nat) + "\r\nConnection: close\r\n\r\n"@
}

/// The bytes of the head of the `PUT` request.
pub fn put_headers(guid: u128, fsize: u32) -> (r: Vec<u8>)
    ensures
        r@ == ascii_bytes(put_headers_text(guid, fsize)),
{
    let a = str_chars("PUT / HTTP/1.1\r\nguid: ");
    let b = to_hyphenated(guid);
    let c = str_chars("\r\nContent-Type: text/x.gcode\r\n\nContent-Length: ");
    let d = decimal_string(fsize as u64);
    let e = str_chars("\r\nConnection: close\r\n\r\n");
    proof {
        reveal_strlit("PUT / HTTP/1.1\r\nguid: ");
        reveal_strlit("\r\nContent-Type: text/x.gcode\r\n\nContent-Length: ");
        reveal_strlit("\r\nConnection: close\r\n\r\n");
        lemma_hyphenated_ascii(guid);
        lemma_decimal_ascii(fsize as nat);
        assert forall|i: int| 0 <= i < b@.len() implies (b@[i] as u32) < 128 by {
            assert('\0' <= hyphenated(guid)[i] <= '\u{7f}');
        }
    }
    let mut out: Vec<u8> = Vec::new();
    push_ascii(&mut out, &a);
    push_ascii(&mut out, &b);
    push_ascii(&mut out, &c);
    push_ascii(&mut out, &d);
    push_ascii(&mut out, &e);
    proof {
        assert(ascii_bytes(a@ + b@ + c@ + d@ + e@) =~= ascii_bytes(a@) + ascii_bytes(b@) + ascii_bytes(
            c@,
        ) + ascii_bytes(d@) + ascii_bytes(e@));
    }
    out
}

/// A request to send a job's file: where to, how many bytes the file
/// holds, the bytes staged for lwIP, and whether a control block is in
/// place.
pub struct PutRequest {
    pub guid: u128,
    pub addr: u32,
    pub port: u16,
    pub fsize: u32,
    pub buf: StagingBuffer,
    pub pcb: bool,
}

/// The next call while making a request, or the end.
pub enum RequestStep<E> {
    /// `f_stat` the file at this native path, giving its result and size.
    Stat(Vec<u8>),
    /// Open the file at this path read-only, giving whether it opened.
    Open(Vec<u8>),
    /// The request is made, or refused with this error.
    Done(Result<PutRequest, E>),
}

/// What making the request for the job `guid` does, given the answers so
/// far of `f_stat` (`stat`) and of opening the file (`opened`): a path
/// that has no native form gives its error and nothing is called; a
/// failed `stat` gives its result and the file is not opened; a file that
/// would not open gives `NoPath`; otherwise the request holds the file's
/// size, an empty staging buffer and no control block.
pub open spec fn request_step_spec(
    guid: u128,
    addr: u32,
    port: u16,
    stat: Option<(FResult, u32)>,
    opened: Option<bool>,
    r: RequestStep<FResult>,
) -> bool {
    match stat_path(job_path(guid, false)) {
        Err(e) => r matches RequestStep::Done(d) && d == Err::<PutRequest, FResult>(e),
        Ok(native) => match stat {
            None => r matches RequestStep::Stat(np) && np@ == native,
            Some(st) => if st.0 != FResult::Success {
                r matches RequestStep::Done(d) && d == Err::<PutRequest, FResult>(st.0)
            } else {
                match opened {
                    None => r matches RequestStep::Open(pp) && pp@ == job_path(guid, false),
                    Some(false) => r matches RequestStep::Done(d) && d == Err::<PutRequest, FResult>(
                        FResult::NoPath,
                    ),
                    Some(true) => r matches RequestStep::Done(Ok(p)) && p.guid == guid && p.addr == addr
                        && p.port == port && p.fsize == st.1 && p.buf@ == Seq::<u8>::empty() && !p.pcb,
                }
            },
        },
    }
}

/// Everything of a request but its staged bytes.
pub open spec fn same_request(a: PutRequest, b: PutRequest) -> bool {
    a.guid == b.guid && a.addr == b.addr && a.port == b.port && a.fsize == b.fsize && a.pcb == b.pcb
}

/// What lwIP is answered from a callback, and what the task waiting on
/// the request is told, if anything.
#[derive(PartialEq, Eq, Structural, Debug, Clone, Copy)]
pub struct Reply {
    pub ret: err_t,
    pub signal: Option<err_t>,
}

/// The reply after a pump: an error is both returned and signalled.
pub open spec fn reply_of(pr: Result<(), err_t>) -> Reply {
    match pr {
        Ok(()) => Reply { ret: err_t::Success, signal: None },
        Err(e) => Reply { ret: e, signal: Some(e) },
    }
}

/// The staged bytes after the head of the request is added: the head is
/// dropped when it does not fit.
pub open spec fn with_headers(before: Seq<u8>, head: Seq<u8>) -> Seq<u8> {
    if before.len() + head.len() <= BUF_CAP {
        before + head
    } else {
        before
    }
}

/// The next lwIP call while setting up the connection, or the end.
#[derive(Debug, Clone, Copy)]
pub enum SetupStep {
    /// `tcp_new`: make a control block.
    New,
    /// Register the request's callbacks on the new block, then
    /// `tcp_connect` it to this address (in network order) and port.
    RegisterAndConnect(u32, u16),
    /// The set-up is over, with this result.
    Done(Result<(), err_t>),
}

impl PutRequest {
    /// A request for the job `guid`'s finished file, given the answers so
    /// far of `f_stat` and of opening the file: its size is read with
    /// `stat`, then the file is opened read-only.
    pub fn new(guid: u128, addr: u32, port: u16, stat_answer: Option<(FResult, u32)>, opened: Option<bool>) -> (r:
        RequestStep<FResult>)
        ensures
            request_step_spec(guid, addr, port, stat_answer, opened, r),
    {
        let path = make_path(guid, false);
        let pbytes = path.to_bytes();
        let native = match stat(pbytes.as_slice()) {
            Ok(n) => n,
            Err(e) => return RequestStep::Done(Err(e)),
        };
        let st = match stat_answer {
            None => return RequestStep::Stat(native.to_bytes()),
            Some(st) => st,
        };
        if st.0 != FResult::Success {
            return RequestStep::Done(Err(st.0));
        }
        match opened {
            None => RequestStep::Open(pbytes),
            Some(false) => RequestStep::Done(Err(FResult::NoPath)),
            Some(true) => RequestStep::Done(
                Ok(PutRequest { guid, addr, port, fsize: st.1, buf: StagingBuffer::new(), pcb: false }),
            ),
        }
    }

    /// lwIP reports the connection made (or failed with `err`). A failure
    /// is answered and signalled at once, and nothing is pumped; otherwise
    /// the head of the request is staged, and the answer (`None`) is to
    /// pump the first bytes.
    pub fn connected(&mut self, err: err_t) -> (r: Option<Reply>)
        ensures
            same_request(*final(self), *old(self)),
            err != err_t::Success ==> r == Some(Reply { ret: err, signal: Some(err) }) && final(self).buf@
                == old(self).buf@,
            err == err_t::Success ==> r is None && final(self).buf@ == with_headers(
                old(self).buf@,
                ascii_bytes(put_headers_text(old(self).guid, old(self).fsize)),
            ),
    {
        if err != err_t::Success {
            return Some(Reply { ret: err, signal: Some(err) });
        }
        let headers = put_headers(self.guid, self.fsize);
        let _ = self.buf.extend_from_slice(headers.as_slice());
        None
    }

    /// lwIP hands over the server's answer (or fails with `err`): the
    /// sender is told `Success` once an answer arrives, and `Clsd` when the
    /// server closed the connection instead.
    pub fn recv(&self, err: err_t, pbuf: Option<super::packet_buffer::PacketBuffer>) -> (r: Reply)
        ensures
            err != err_t::Success ==> r == (Reply { ret: err, signal: Some(err) }),
            err == err_t::Success && pbuf is None ==> r == (Reply {
                ret: err_t::Success,
                signal: Some(err_t::Clsd),
            }),
            err == err_t::Success && pbuf is Some ==> r == (Reply {
                ret: err_t::Success,
                signal: Some(err_t::Success),
            }),
    {
        if err != err_t::Success {
            return Reply { ret: err, signal: Some(err) };
        }
        match pbuf {
            None => Reply { ret: err_t::Success, signal: Some(err_t::Clsd) },
            Some(_) => Reply { ret: err_t::Success, signal: Some(err_t::Success) },
        }
    }

    /// The part of sending run on lwIP's thread, given the answers so far
    /// of `tcp_new` (`made`) and `tcp_connect` (`connected`). A request
    /// that already has a control block is refused with `Val` and makes no
    /// call. Otherwise a control block is made (`Mem` without one), the
    /// request's callbacks are registered on it, and it is connected to the
    /// request's address, handed to lwIP in network order; the request
    /// keeps the control block once the connection is under way.
    pub fn send_setup(&mut self, made: Option<bool>, connected: Option<err_t>) -> (r: SetupStep)
        ensures
            final(self).guid == old(self).guid && final(self).addr == old(self).addr && final(self).port
                == old(self).port && final(self).fsize == old(self).fsize,
            final(self).buf@ == old(self).buf@,
            old(self).pcb ==> r == SetupStep::Done(Err(err_t::Val)) && final(self).pcb,
            !old(self).pcb ==> {
                &&& made is None ==> r == SetupStep::New
                &&& made == Some(false) ==> r == SetupStep::Done(Err(err_t::Mem))
                &&& made == Some(true) && connected is None ==> r == SetupStep::RegisterAndConnect(
                    host_order(old(self).addr),
                    old(self).port,
                )
                &&& made == Some(true) && connected == Some(err_t::Success) ==> r == SetupStep::Done(
                    Ok(()),
                )
                &&& made == Some(true) && connected is Some && connected->Some_0 != err_t::Success
                    ==> r == SetupStep::Done(Err(connected->Some_0))
                &&& final(self).pcb <==> r == SetupStep::Done(Ok(()))
            },
    {
        if self.pcb {
            return SetupStep::Done(Err(err_t::Val));
        }
        match made {
            None => SetupStep::New,
            Some(false) => SetupStep::Done(Err(err_t::Mem)),
            Some(true) => match connected {
                None => SetupStep::RegisterAndConnect(to_host_order(self.addr), self.port),
                Some(e) => if e == err_t::Success {
                    self.pcb = true;
                    SetupStep::Done(Ok(()))
                } else {
                    SetupStep::Done(Err(e))
                },
            },
        }
    }
}

/// The end of sending: what the connection's callbacks signalled.
pub fn send_finish(signal: err_t) -> (r: Result<(), err_t>)
    ensures
        signal == err_t::Success ==> r is Ok,
        signal != err_t::Success ==> r == Err::<(), err_t>(signal),
{
    if signal != err_t::Success {
        Err(signal)
    } else {
        Ok(())
    }
}

/// Prepares sending the job `guid`'s finished file, given the answers so
/// far of `f_stat` and of opening the file: the steps of
/// `PutRequest::new`, a request that cannot be made being reported as
/// `Val`.
pub fn put_file(guid: u128, addr: u32, port: u16, stat_answer: Option<(FResult, u32)>, opened: Option<bool>) -> (r:
    RequestStep<err_t>)
    ensures
        exists|made: RequestStep<FResult>|
            #[trigger] request_step_spec(guid, addr, port, stat_answer, opened, made) && match made {
                RequestStep::Stat(np) => r matches RequestStep::Stat(q) && q@ == np@,
                RequestStep::Open(pp) => r matches RequestStep::Open(q) && q@ == pp@,
                RequestStep::Done(Ok(p)) => r matches RequestStep::Done(Ok(q)) && q == p,
                RequestStep::Done(Err(_)) => r matches RequestStep::Done(Err(e)) && e == err_t::Val,
            },
{
    let made = PutRequest::new(guid, addr, port, stat_answer, opened);
    match made {
        RequestStep::Stat(np) => RequestStep::Stat(np),
        RequestStep::Open(pp) => RequestStep::Open(pp),
        RequestStep::Done(Ok(p)) => RequestStep::Done(Ok(p)),
        RequestStep::Done(Err(_)) => RequestStep::Done(Err(err_t::Val)),
    }
}

// ---------------------------------------------------------------------------
// A request one printer sends is accepted by another
// ---------------------------------------------------------------------------

/// The header lines of the `PUT` request, without the start line and the
/// blank line that ends them.
pub open spec fn header_block(guid: u128, fsize: u32) -> Seq<char> {
    "guid: "@ + hyphenated(guid) + "\r\nContent-Type: text/x.gcode\r\n\nContent-Length: "@ + decimal(
        fsize as nat,
    ) + "\r\nConnection: close"@
}

proof fn lemma_request_shape(guid: u128, fsize: u32)
    ensures
        put_headers_text(guid, fsize) == "PUT / HTTP/1.1"@ + "\r\n"@ + header_block(guid, fsize)
            + "\r\n\r\n"@,
{
    reveal_strlit("PUT / HTTP/1.1\r\nguid: ");
    reveal_strlit("PUT / HTTP/1.1");
    reveal_strlit("\r\n");
    reveal_strlit("guid: ");
    reveal_strlit("\r\nConnection: close\r\n\r\n");
    reveal_strlit("\r\nConnection: close");
    reveal_strlit("\r\n\r\n");
    let m = "\r\nContent-Type: text/x.gcode\r\n\nContent-Length: "@;
    let g = hyphenated(guid);
    let d = decimal(fsize as nat);
    assert("PUT / HTTP/1.1\r\nguid: "@ =~= "PUT / HTTP/1.1"@ + "\r\n"@ + "guid: "@);
    assert("\r\nConnection: close\r\n\r\n"@ =~= "\r\nConnection: close"@ + "\r\n\r\n"@);
    assert(put_headers_text(guid, fsize) =~= "PUT / HTTP/1.1"@ + "\r\n"@ + header_block(guid, fsize)
        + "\r\n\r\n"@);
}

proof fn lemma_ascii_concat(a: Seq<char>, b: Seq<char>)
    ensures
        ascii_bytes(a + b) == ascii_bytes(a) + ascii_bytes(b),
{
    assert(ascii_bytes(a + b) =~= ascii_bytes(a) + ascii_bytes(b));
}

/// A request made of a start line without a carriage return, header lines
/// with no blank line among them, the blank line and a body splits into
/// those three parts.
proof fn lemma_split_at_blank_line(sb: Seq<u8>, hb: Seq<u8>, body: Seq<u8>)
    requires
        forall|i: int| 0 <= i < sb.len() ==> sb[i] != 13,
        forall|j: int| 0 <= j < hb.len() ==> !matches_at(hb + crlf_crlf() + body, crlf_crlf(), j),
        valid_utf8(sb),
        valid_utf8(hb),
    ensures
        split_request_spec(sb + crlf() + hb + crlf_crlf() + body) == Some((sb, hb, body)),
{
    let buf = sb + crlf() + hb + crlf_crlf() + body;
    let n = sb.len() as int;
    assert forall|j: int| 0 <= j < n implies !matches_at(buf, crlf(), j) by {
        assert(buf.subrange(j, j + 2)[0] == buf[j]);
        assert(buf[j] == sb[j]);
    }
    assert(buf.subrange(n, n + 2) =~= crlf());
    lemma_find_first_at(buf, crlf(), n);
    let rest = buf.subrange(n + 2, buf.len() as int);
    assert(rest =~= hb + crlf_crlf() + body);
    let k = hb.len() as int;
    assert(rest.subrange(k, k + 4) =~= crlf_crlf());
    lemma_find_first_at(rest, crlf_crlf(), k);
    assert(buf.subrange(0, n) =~= sb);
    assert(rest.subrange(0, k) =~= hb);
    assert(rest.subrange(k + 4, rest.len() as int) =~= body);
}

proof fn lemma_ascii_decodes(x: Seq<char>)
    requires
        is_ascii_chars(x),
    ensures
        valid_utf8(ascii_bytes(x)),
        decode_utf8(ascii_bytes(x)) == x,
{
    vstd::utf8::is_ascii_chars_encode_utf8(x);
    assert(encode_utf8(x) =~= ascii_bytes(x));
    vstd::utf8::encode_utf8_valid_utf8(x);
    vstd::utf8::encode_utf8_decode_utf8(x);
}

/// The header block holds no blank line: no `\r\n\r\n` starts inside it.
proof fn lemma_no_blank_line(guid: u128, fsize: u32, body: Seq<u8>)
    ensures
        forall|j: int|
            0 <= j < ascii_bytes(header_block(guid, fsize)).len() ==> !matches_at(
                ascii_bytes(header_block(guid, fsize)) + crlf_crlf() + body,
                crlf_crlf(),
                j,
            ),
{
    let h = header_block(guid, fsize);
    let hb = ascii_bytes(h);
    let s = hb + crlf_crlf() + body;
    let l1 = "guid: "@;
    let g = hyphenated(guid);
    let m = "\r\nContent-Type: text/x.gcode\r\n\nContent-Length: "@;
    let d = decimal(fsize as nat);
    let l3 = "\r\nConnection: close"@;
    reveal_strlit("guid: ");
    reveal_strlit("\r\nContent-Type: text/x.gcode\r\n\nContent-Length: ");
    reveal_strlit("\r\nConnection: close");
    lemma_hyphenated_chars(guid);
    lemma_decimal_digits(fsize as nat);
    assert(l1.len() == 6 && m.len() == 47 && l3.len() == 19);
    let e: int = 89 + d.len() as int;
    assert forall|j: int| 0 <= j < hb.len() implies !matches_at(s, crlf_crlf(), j) by {
        if matches_at(s, crlf_crlf(), j) {
            assert(s.subrange(j, j + 4)[0] == s[j]);
            assert(s.subrange(j, j + 4)[2] == s[j + 2]);
            assert(s[j] == hb[j]);
            assert(hb[j] == h[j] as u8);
            if j < 6 {
                assert(h[j] == l1[j]);
            } else if j < 42 {
                assert(h[j] == g[j - 6]);
            } else if j < 89 {
                assert(h[j] == m[j - 42]);
                if j == 42 {
                    assert(h[44] == m[2]);
                    assert(s[44] == hb[44]);
                } else if j == 70 {
                    assert(h[72] == m[30]);
                    assert(s[72] == hb[72]);
                }
            } else if j < e {
                assert(h[j] == d[j - 89]);
            } else {
                assert(h[j] == l3[j - e]);
                if j == e {
                    assert(h[e + 2] == l3[2]);
                    assert(s[e + 2] == hb[e + 2]);
                }
            }
        }
    }
}

/// The start line of the request is served as a `PUT`.
proof fn lemma_put_start_line()
    ensures
        start_line_result("PUT / HTTP/1.1"@) == Ok::<Method, &'static str>(Method::Put),
{
    reveal_strlit("PUT / HTTP/1.1");
    reveal_strlit("GET");
    reveal_strlit("PUT");
    reveal_strlit("/");
    let s = "PUT / HTTP/1.1"@;
    lemma_find_one_at(s, ' ', 0, 3);
    assert(first_token(s) =~= "PUT"@);
    let t = s.subrange(4, s.len() as int);
    lemma_find_one_at(t, ' ', 0, 1);
    assert(first_token(t) =~= "/"@);
    assert(first_token(s)[0] != "GET"@[0]);
}

/// Where each character of the header block comes from.
proof fn lemma_header_pieces(guid: u128, fsize: u32)
    ensures
        ({
            let h = header_block(guid, fsize);
            let l1 = "guid: "@;
            let g = hyphenated(guid);
            let m = "\r\nContent-Type: text/x.gcode\r\n\nContent-Length: "@;
            let d = decimal(fsize as nat);
            let l3 = "\r\nConnection: close"@;
            let e = 89 + d.len();
            &&& l1.len() == 6 && g.len() == 36 && m.len() == 47 && l3.len() == 19
            &&& h.len() == e + 19
            &&& forall|x: int| 0 <= x < 6 ==> #[trigger] h[x] == l1[x]
            &&& forall|x: int| 6 <= x < 42 ==> #[trigger] h[x] == g[x - 6]
            &&& forall|x: int| 42 <= x < 89 ==> #[trigger] h[x] == m[x - 42]
            &&& forall|x: int| 89 <= x < e ==> #[trigger] h[x] == d[x - 89]
            &&& forall|x: int| e <= x < e + 19 ==> #[trigger] h[x] == l3[x - e]
        }),
{
    reveal_strlit("guid: ");
    reveal_strlit("\r\nContent-Type: text/x.gcode\r\n\nContent-Length: ");
    reveal_strlit("\r\nConnection: close");
    lemma_hyphenated_chars(guid);
}

/// The lines of the header block.
proof fn lemma_header_lines(guid: u128, fsize: u32)
    ensures
        lines(header_block(guid, fsize)) == seq![
            "guid: "@ + hyphenated(guid),
            "Content-Type: text/x.gcode"@,
            Seq::<char>::empty(),
            "Content-Length: "@ + decimal(fsize as nat),
            "Connection: close"@,
        ],
{
    let h = header_block(guid, fsize);
    let l1 = "guid: "@;
    let g = hyphenated(guid);
    let m = "\r\nContent-Type: text/x.gcode\r\n\nContent-Length: "@;
    let d = decimal(fsize as nat);
    let l3 = "\r\nConnection: close"@;
    reveal_strlit("guid: ");
    reveal_strlit("\r\nContent-Type: text/x.gcode\r\n\nContent-Length: ");
    reveal_strlit("\r\nConnection: close");
    reveal_strlit("Content-Type: text/x.gcode");
    reveal_strlit("Content-Length: ");
    reveal_strlit("Connection: close");
    lemma_hyphenated_chars(guid);
    lemma_decimal_digits(fsize as nat);
    lemma_header_pieces(guid, fsize);
    let e: int = 89 + d.len() as int;
    assert forall|x: int| 0 <= x < 43 implies h[x] != '\n' by {
        if x < 6 {
            assert(h[x] == l1[x]);
        } else if x < 42 {
            assert(h[x] == g[x - 6]);
        } else {
            assert(h[x] == m[x - 42]);
        }
    }
    assert(h[43] == m[1]);
    lemma_find_one_at(h, '\n', 0, 43);
    lemma_lines_step(h, 0);
    assert forall|x: int| 44 <= x < 71 implies h[x] != '\n' by {
        assert(h[x] == m[x - 42]);
    }
    assert(h[71] == m[29]);
    lemma_find_one_at(h, '\n', 44, 71);
    lemma_lines_step(h, 44);
    assert(h[72] == m[30]);
    lemma_find_one_at(h, '\n', 72, 72);
    lemma_lines_step(h, 72);
    assert forall|x: int| 73 <= x < e + 1 implies h[x] != '\n' by {
        if x < 89 {
            assert(h[x] == m[x - 42]);
        } else if x < e {
            assert(h[x] == d[x - 89]);
        } else {
            assert(h[x] == l3[x - e]);
        }
    }
    assert(h[e + 1] == l3[1]);
    lemma_find_one_at(h, '\n', 73, e + 1);
    lemma_lines_step(h, 73);
    assert forall|x: int| e + 2 <= x < h.len() implies h[x] != '\n' by {
        assert(h[x] == l3[x - e]);
    }
    lemma_find_one_none(h, '\n', e + 2);
    lemma_lines_step(h, e + 2);
    assert(h[42] == m[0]);
    assert(strip_cr(h.subrange(0, 43)) =~= l1 + g);
    assert(h[70] == m[28]);
    assert(strip_cr(h.subrange(44, 71)) =~= "Content-Type: text/x.gcode"@);
    assert(strip_cr(h.subrange(72, 72)) =~= Seq::<char>::empty());
    assert(h[e] == l3[0]);
    assert(strip_cr(h.subrange(73, e + 1)) =~= "Content-Length: "@ + d);
    assert(h.subrange(e + 2, h.len() as int) =~= "Connection: close"@);
    assert(lines(h) =~= seq![
        l1 + g,
        "Content-Type: text/x.gcode"@,
        Seq::<char>::empty(),
        "Content-Length: "@ + d,
        "Connection: close"@,
    ]);
}

/// A value after `": "` reads as itself.
proof fn lemma_trim_padded(x: Seq<char>)
    requires
        x.len() > 0,
        !is_whitespace(x[0]),
        !is_whitespace(x.last()),
    ensures
        trim(seq![' '] + x) == x,
{
    let p = seq![' '] + x;
    assert(p[0] == ' ');
    assert(p.drop_first() =~= x);
    assert(trim_start(p) == trim_start(x));
    assert(trim_start(x) == x);
    assert(trim_end(x) == x);
}

/// The header lines read as the job's identifier, its size and G-code.
proof fn lemma_header_info(guid: u128, fsize: u32)
    ensures
        put_info(header_block(guid, fsize)) == (PutInfo {
            size: Some(fsize as usize),
            guid: crate::ids::uuid_parse(hyphenated(guid)),
            is_gcode: true,
        }),
{
    let g = hyphenated(guid);
    let d = decimal(fsize as nat);
    reveal_strlit("guid: ");
    reveal_strlit("guid");
    reveal_strlit("content-length");
    reveal_strlit("content-type");
    reveal_strlit("text/x.gcode");
    reveal_strlit("Content-Type: text/x.gcode");
    reveal_strlit("Content-Length: ");
    reveal_strlit("Connection: close");
    reveal_strlit("Content-Type");
    reveal_strlit("Content-Length");
    reveal_strlit("Connection");
    lemma_hyphenated_chars(guid);
    lemma_decimal_digits(fsize as nat);
    lemma_parse_decimal(fsize as nat);
    lemma_header_lines(guid, fsize);
    let l1 = "guid: "@ + g;
    let l2 = "Content-Type: text/x.gcode"@;
    let l3 = "Content-Length: "@ + d;
    let l4 = "Connection: close"@;
    let i0 = no_info();
    // guid: <g>
    lemma_find_one_at(l1, ':', 0, 4);
    assert(l1.subrange(0, 4) =~= "guid"@);
    assert(l1.subrange(5, l1.len() as int) =~= seq![' '] + g);
    assert(g[35] == g.last());
    lemma_trim_padded(g);
    let i1 = PutInfo { guid: crate::ids::uuid_parse(g), ..i0 };
    assert(!eq_ignore_ascii_case("guid"@, "content-length"@));
    assert(!eq_ignore_ascii_case("guid"@, "content-type"@));
    assert(eq_ignore_ascii_case("guid"@, "guid"@));
    assert(apply_header(i0, l1) == i1);
    // Content-Type: text/x.gcode
    lemma_find_one_at(l2, ':', 0, 12);
    assert(l2.subrange(0, 12) =~= "Content-Type"@);
    assert(l2.subrange(13, l2.len() as int) =~= seq![' '] + "text/x.gcode"@);
    lemma_trim_padded("text/x.gcode"@);
    assert(!eq_ignore_ascii_case("Content-Type"@, "content-length"@));
    assert(eq_ignore_ascii_case("Content-Type"@, "content-type"@));
    let i2 = PutInfo { is_gcode: true, ..i1 };
    assert(apply_header(i1, l2) == i2);
    // the bare newline
    assert(split_once(Seq::<char>::empty(), ':') is None);
    assert(apply_header(i2, Seq::<char>::empty()) == i2);
    // Content-Length: <d>
    lemma_find_one_at(l3, ':', 0, 14);
    assert(l3.subrange(0, 14) =~= "Content-Length"@);
    assert(l3.subrange(15, l3.len() as int) =~= seq![' '] + d);
    assert(d[d.len() - 1] == d.last());
    lemma_trim_padded(d);
    assert(eq_ignore_ascii_case("Content-Length"@, "content-length"@));
    let i3 = PutInfo { size: Some(fsize as usize), ..i2 };
    assert(apply_header(i2, l3) == i3);
    // Connection: close
    lemma_find_one_at(l4, ':', 0, 10);
    assert(l4.subrange(0, 10) =~= "Connection"@);
    assert(!eq_ignore_ascii_case("Connection"@, "content-length"@));
    assert(!eq_ignore_ascii_case("Connection"@, "content-type"@));
    assert(!eq_ignore_ascii_case("Connection"@, "guid"@));
    assert(apply_header(i3, l4) == i3);
    // all lines in order
    let ls = seq![l1, l2, Seq::<char>::empty(), l3, l4];
    lemma_apply_headers_cons(i0, l1, ls.drop_first());
    assert(seq![l1] + ls.drop_first() =~= ls);
    let r1 = ls.drop_first();
    lemma_apply_headers_cons(i1, l2, r1.drop_first());
    assert(seq![l2] + r1.drop_first() =~= r1);
    let r2 = r1.drop_first();
    lemma_apply_headers_cons(i2, Seq::<char>::empty(), r2.drop_first());
    assert(seq![Seq::<char>::empty()] + r2.drop_first() =~= r2);
    let r3 = r2.drop_first();
    lemma_apply_headers_cons(i2, l3, r3.drop_first());
    assert(seq![l3] + r3.drop_first() =~= r3);
    let r4 = r3.drop_first();
    lemma_apply_headers_cons(i3, l4, r4.drop_first());
    assert(seq![l4] + r4.drop_first() =~= r4);
    assert(r4.drop_first() =~= Seq::<Seq<char>>::empty());
}

/// The start line and the header block are ASCII.
proof fn lemma_request_ascii(guid: u128, fsize: u32)
    ensures
        is_ascii_chars("PUT / HTTP/1.1"@),
        is_ascii_chars(header_block(guid, fsize)),
{
    reveal_strlit("PUT / HTTP/1.1");
    reveal_strlit("guid: ");
    reveal_strlit("\r\nContent-Type: text/x.gcode\r\n\nContent-Length: ");
    reveal_strlit("\r\nConnection: close");
    lemma_hyphenated_chars(guid);
    lemma_decimal_digits(fsize as nat);
    lemma_header_pieces(guid, fsize);
    let h = header_block(guid, fsize);
    let d = decimal(fsize as nat);
    let e: int = 89 + d.len() as int;
    assert forall|x: int| 0 <= x < h.len() implies '\0' <= #[trigger] h[x] <= '\u{7f}' by {
        if x < 6 {
            assert(h[x] == "guid: "@[x]);
        } else if x < 42 {
            assert(h[x] == hyphenated(guid)[x - 6]);
        } else if x < 89 {
            assert(h[x] == "\r\nContent-Type: text/x.gcode\r\n\nContent-Length: "@[x - 42]);
        } else if x < e {
            assert(h[x] == d[x - 89]);
        } else {
            assert(h[x] == "\r\nConnection: close"@[x - e]);
        }
    }
}

/// The head of the `PUT` request reads back as the job it describes: for
/// any job `guid` and any file size `fsize`, followed by any bytes `body`,
/// the request splits into the start line `PUT / HTTP/1.1`, a header block
/// that `check_put_header` reads as `fsize` bytes of G-code under the
/// identifier its parse of the `guid` header gives, and `body`.
pub proof fn law_put_headers_read_back(guid: u128, fsize: u32, body: Seq<u8>)
    ensures
        split_request_spec(ascii_bytes(put_headers_text(guid, fsize)) + body) matches Some((sb, hb, b))
            && decode_utf8(sb) == "PUT / HTTP/1.1"@ && start_line_result(decode_utf8(sb)) == Ok::<
            Method,
            &'static str,
        >(Method::Put) && b == body && put_info(decode_utf8(hb)) == (PutInfo {
            size: Some(fsize as usize),
            guid: crate::ids::uuid_parse(hyphenated(guid)),
            is_gcode: true,
        }),
{
    let sl = "PUT / HTTP/1.1"@;
    let h = header_block(guid, fsize);
    lemma_request_shape(guid, fsize);
    reveal_strlit("\r\n");
    reveal_strlit("\r\n\r\n");
    reveal_strlit("PUT / HTTP/1.1");
    lemma_ascii_concat(sl, "\r\n"@);
    lemma_ascii_concat(sl + "\r\n"@, h);
    lemma_ascii_concat(sl + "\r\n"@ + h, "\r\n\r\n"@);
    assert(ascii_bytes("\r\n"@) =~= crlf());
    assert(ascii_bytes("\r\n\r\n"@) =~= crlf_crlf());
    let sb = ascii_bytes(sl);
    let hb = ascii_bytes(h);
    assert(ascii_bytes(put_headers_text(guid, fsize)) + body == sb + crlf() + hb + crlf_crlf() + body);
    lemma_request_ascii(guid, fsize);
    lemma_ascii_decodes(sl);
    lemma_ascii_decodes(h);
    assert forall|i: int| 0 <= i < sb.len() implies sb[i] != 13 by {
        assert(sb[i] == sl[i] as u8);
    }
    lemma_no_blank_line(guid, fsize, body);
    lemma_split_at_blank_line(sb, hb, body);
    lemma_put_start_line();
    lemma_header_info(guid, fsize);
}

/// What one printer sends to share a job's file is what another accepts:
/// served the head of the `PUT` request for the job `guid` whose file holds
/// `fsize` bytes (from 1 byte to `MAX_UPLOAD`), followed by the first bytes
/// `body` of the file, the receiving printer takes an upload of `fsize`
/// bytes of G-code, beginning with `body`, under the identifier its parse
/// of the `guid` header gives.
pub proof fn law_shared_file_is_accepted(guid: u128, fsize: u32, body: Seq<u8>, r: Route)
    requires
        1 <= fsize <= MAX_UPLOAD,
        route_spec(Some(ascii_bytes(put_headers_text(guid, fsize)) + body), r),
    ensures
        r matches Route::Upload { info, size, body: b } && size == fsize && b@ == body
            && info.is_gcode && info.size == Some(fsize as usize) && info.guid
            == crate::ids::uuid_parse(hyphenated(guid)),
{
    law_put_headers_read_back(guid, fsize, body);
}

} // verus!
