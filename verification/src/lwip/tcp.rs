//! The decisions around lwIP's TCP calls and callbacks: listening,
//! accepting, receiving, answering and closing a connection.
use vstd::prelude::*;

use super::bindings::err_t;
use super::packet_buffer::{chain_len, PacketBuffer};

verus! {

/// The backlog a listening control block is made with.
pub const BACKLOG: u8 = 2;

/// Accepts new TCP connections: whether a listening control block is
/// registered.
pub struct TcpListener {
    pub pcb: bool,
}

/// The next lwIP call while starting to listen, or the end.
#[derive(PartialEq, Eq, Structural, Debug, Clone, Copy)]
pub enum ListenStep {
    /// `tcp_new`: make a control block.
    New,
    /// `tcp_bind` the block to this port on any address.
    Bind(u16),
    /// `tcp_close` the block, which would not bind; then fail with this error.
    CloseAndFail(err_t),
    /// `tcp_listen_with_backlog` with this backlog.
    Listen(u8),
    /// Register the accept callback on the listening block; then succeed.
    Register,
    /// Fail with this error.
    Fail(err_t),
}

/// What became of a connection offered to the accept callback.
#[derive(PartialEq, Eq, Structural, Debug, Clone, Copy)]
pub enum Accepted {
    /// lwIP reported an error, or there was no control block or listener.
    Ignored,
    /// The connection waits in the listener's queue.
    Queued,
    /// The queue was full: the connection was aborted.
    Aborted,
}

impl TcpListener {
    pub fn new() -> (r: TcpListener)
        ensures
            !r.pcb,
    {
        TcpListener { pcb: false }
    }

    /// Listens on `port`, on lwIP's thread, given the answers so far of
    /// `tcp_new` (`made`), `tcp_bind` (`bound`) and
    /// `tcp_listen_with_backlog` (`listening`). A listener already
    /// listening refuses with `Val` and makes no call. Without a control
    /// block lwIP is out of memory; a failed bind closes the block and
    /// gives its error; a block that would not listen gives `Mem`;
    /// otherwise the accept callback is registered and the listener holds
    /// the listening block.
    pub fn listen(&mut self, port: u16, made: Option<bool>, bound: Option<err_t>, listening: Option<bool>) -> (r:
        ListenStep)
        ensures
            old(self).pcb ==> r == ListenStep::Fail(err_t::Val) && final(self).pcb,
            !old(self).pcb ==> {
                &&& made is None ==> r == ListenStep::New
                &&& made == Some(false) ==> r == ListenStep::Fail(err_t::Mem)
                &&& made == Some(true) && bound is None ==> r == ListenStep::Bind(port)
                &&& made == Some(true) && bound is Some && bound->Some_0 != err_t::Success ==> r
                    == ListenStep::CloseAndFail(bound->Some_0)
                &&& made == Some(true) && bound == Some(err_t::Success) ==> {
                    &&& listening is None ==> r == ListenStep::Listen(BACKLOG)
                    &&& listening == Some(false) ==> r == ListenStep::Fail(err_t::Mem)
                    &&& listening == Some(true) ==> r == ListenStep::Register
                }
                &&& final(self).pcb <==> r == ListenStep::Register
            },
    {
        if self.pcb {
            return ListenStep::Fail(err_t::Val);
        }
        match made {
            None => ListenStep::New,
            Some(false) => ListenStep::Fail(err_t::Mem),
            Some(true) => match bound {
                None => ListenStep::Bind(port),
                Some(b) => {
                    if b != err_t::Success {
                        return ListenStep::CloseAndFail(b);
                    }
                    match listening {
                        None => ListenStep::Listen(BACKLOG),
                        Some(false) => ListenStep::Fail(err_t::Mem),
                        Some(true) => {
                            self.pcb = true;
                            ListenStep::Register
                        },
                    }
                },
            },
        }
    }

    /// The accept callback, given whether the connection was queued once
    /// that was tried. A connection is taken only when lwIP reports no
    /// error and hands a control block to a listener: it is then held (its
    /// data refused until its task attaches) and queued, and it is aborted
    /// only when the queue was full. In every other case nothing is called.
    /// lwIP is always answered `Success`.
    pub fn accept(err: err_t, pcb_present: bool, listener_present: bool, queued: Option<bool>) -> (r: (
        err_t,
        AcceptStep,
    ))
        ensures
            r.0 == err_t::Success,
            !(err == err_t::Success && pcb_present && listener_present) ==> r.1 == AcceptStep::Done(
                Accepted::Ignored,
            ),
            err == err_t::Success && pcb_present && listener_present ==> {
                &&& queued is None ==> r.1 == AcceptStep::HoldAndQueue
                &&& queued == Some(true) ==> r.1 == AcceptStep::Done(Accepted::Queued)
                &&& queued == Some(false) ==> r.1 == AcceptStep::Abort
            },
    {
        if err != err_t::Success || !pcb_present || !listener_present {
            return (err_t::Success, AcceptStep::Done(Accepted::Ignored));
        }
        match queued {
            None => (err_t::Success, AcceptStep::HoldAndQueue),
            Some(true) => (err_t::Success, AcceptStep::Done(Accepted::Queued)),
            Some(false) => (err_t::Success, AcceptStep::Abort),
        }
    }
}

/// The next thing the accept callback does.
#[derive(PartialEq, Eq, Structural, Debug, Clone, Copy)]
pub enum AcceptStep {
    /// Hold the connection (`tcp_arg` cleared, data refused) and try to
    /// queue it.
    HoldAndQueue,
    /// `tcp_abort` the connection, which found the queue full.
    Abort,
    /// The callback is over.
    Done(Accepted),
}

/// One accepted connection: whether its control block is still alive.
pub struct TcpConnection {
    pub pcb: bool,
}

/// The next lwIP call while attaching a connection's callbacks, or the end.
#[derive(Debug, Clone, Copy)]
pub enum AttachStep {
    /// Register the receive, error and sent callbacks, then ask lwIP
    /// whether it holds data refused before.
    RegisterAndAsk,
    /// `tcp_process_refused_data`.
    ProcessRefused,
    /// Attaching is over, with this result.
    Done(Result<(), err_t>),
}

/// The next thing the receive callback does.
#[derive(PartialEq, Eq, Structural, Debug, Clone, Copy)]
pub enum RecvStep {
    /// Queue the packet, or the end-of-stream mark, for the connection's task.
    Queue,
    /// Answer lwIP with this.
    Done(err_t),
}

/// The next lwIP call while answering, or the end.
#[derive(Debug, Clone, Copy)]
pub enum ResponseStep {
    /// `tcp_write` the response, copied.
    Write,
    /// `tcp_output` what was written.
    Output,
    /// The answer is over, with this result.
    Done(Result<(), err_t>),
}

/// The lengths lwIP must be told were consumed before a connection
/// closes: that of each packet still queued, in order; an end-of-stream
/// mark has none.
pub open spec fn acknowledgements(queue: Seq<Option<Seq<Seq<u8>>>>) -> Seq<nat>
    decreases queue.len(),
{
    if queue.len() == 0 {
        Seq::empty()
    } else {
        let rest = acknowledgements(queue.drop_last());
        match queue.last() {
            Some(p) => rest.push(chain_len(p)),
            None => rest,
        }
    }
}

/// The chains of a queue of packets and end-of-stream marks.
pub open spec fn queued_chains(queue: Seq<Option<PacketBuffer>>) -> Seq<Option<Seq<Seq<u8>>>> {
    queue.map_values(|o: Option<PacketBuffer>| match o {
        Some(p) => Some(p@),
        None => None,
    })
}

impl TcpConnection {
    pub fn new(pcb: bool) -> (r: TcpConnection)
        ensures
            r.pcb == pcb,
    {
        TcpConnection { pcb }
    }

    /// Attaches the connection's callbacks, given the answers so far of
    /// whether lwIP holds data refused before (`refused`) and of
    /// processing it (`processed`). Without a control block the answer is
    /// `Val` and nothing is called. Otherwise the callbacks are registered
    /// and lwIP is asked for refused data, which is processed when there is
    /// some.
    pub fn attach_callbacks(&self, refused: Option<bool>, processed: Option<err_t>) -> (r: AttachStep)
        ensures
            !self.pcb ==> r == AttachStep::Done(Err(err_t::Val)),
            self.pcb && refused is None ==> r == AttachStep::RegisterAndAsk,
            self.pcb && refused == Some(false) ==> r == AttachStep::Done(Ok(())),
            self.pcb && refused == Some(true) && processed is None ==> r == AttachStep::ProcessRefused,
            self.pcb && refused == Some(true) && processed is Some ==> r == AttachStep::Done(Ok(())),
    {
        if !self.pcb {
            return AttachStep::Done(Err(err_t::Val));
        }
        match refused {
            None => AttachStep::RegisterAndAsk,
            Some(false) => AttachStep::Done(Ok(())),
            Some(true) => match processed {
                None => AttachStep::ProcessRefused,
                Some(_) => AttachStep::Done(Ok(())),
            },
        }
    }

    /// The number of bytes to hand `tcp_recved` once `pkt` is taken from
    /// the queue: its total length, while the control block is alive.
    pub fn received(&self, pkt: &PacketBuffer) -> (r: Option<u16>)
        ensures
            self.pcb ==> r == Some(chain_len(pkt@) as u16),
            !self.pcb ==> r is None,
    {
        if self.pcb {
            Some(pkt.total_len())
        } else {
            None
        }
    }

    /// Sends the response `bytes` and pushes it out, given the answers so
    /// far of `tcp_write` (`written`) and `tcp_output` (`sent`). A response
    /// longer than lwIP's 16 bits is refused with `Val` and a connection
    /// without a control block with `Mem`, and then nothing is called;
    /// `tcp_output` follows only a write that succeeded.
    pub fn response(&self, bytes: &[u8], written: Option<err_t>, sent: Option<err_t>) -> (r: ResponseStep)
        ensures
            bytes@.len() > u16::MAX ==> r == ResponseStep::Done(Err(err_t::Val)),
            bytes@.len() <= u16::MAX && !self.pcb ==> r == ResponseStep::Done(Err(err_t::Mem)),
            bytes@.len() <= u16::MAX && self.pcb ==> {
                &&& written is None ==> r == ResponseStep::Write
                &&& written is Some && written->Some_0 != err_t::Success ==> r == ResponseStep::Done(
                    Err(written->Some_0),
                )
                &&& written == Some(err_t::Success) && sent is None ==> r == ResponseStep::Output
                &&& written == Some(err_t::Success) && sent == Some(err_t::Success) ==> r
                    == ResponseStep::Done(Ok(()))
                &&& written == Some(err_t::Success) && sent is Some && sent->Some_0 != err_t::Success
                    ==> r == ResponseStep::Done(Err(sent->Some_0))
            },
    {
        if bytes.len() > 0xffff {
            return ResponseStep::Done(Err(err_t::Val));
        }
        if !self.pcb {
            return ResponseStep::Done(Err(err_t::Mem));
        }
        match written {
            None => ResponseStep::Write,
            Some(w) => {
                if w != err_t::Success {
                    return ResponseStep::Done(Err(w));
                }
                match sent {
                    None => ResponseStep::Output,
                    Some(o) => if o != err_t::Success {
                        ResponseStep::Done(Err(o))
                    } else {
                        ResponseStep::Done(Ok(()))
                    },
                }
            },
        }
    }

    /// The receive callback, given whether the item was queued once that
    /// was tried. Without a connection the packet is dropped, lwIP is
    /// answered `Val` and nothing is queued; the end of the stream
    /// (`end`: lwIP handed no packet) is queued as a mark and answered
    /// `Success`; a packet is queued, and one that finds the queue full is
    /// refused with `Mem`.
    pub fn on_recv(conn_present: bool, end: bool, queued: Option<bool>) -> (r: RecvStep)
        ensures
            !conn_present ==> r == RecvStep::Done(err_t::Val),
            conn_present && queued is None ==> r == RecvStep::Queue,
            conn_present && end && queued is Some ==> r == RecvStep::Done(err_t::Success),
            conn_present && !end && queued == Some(true) ==> r == RecvStep::Done(err_t::Success),
            conn_present && !end && queued == Some(false) ==> r == RecvStep::Done(err_t::Mem),
    {
        if !conn_present {
            return RecvStep::Done(err_t::Val);
        }
        match queued {
            None => RecvStep::Queue,
            Some(q) => {
                if end || q {
                    RecvStep::Done(err_t::Success)
                } else {
                    RecvStep::Done(err_t::Mem)
                }
            },
        }
    }

    /// The error callback: lwIP has freed the control block.
    pub fn on_err(&mut self)
        ensures
            !final(self).pcb,
    {
        self.pcb = false;
    }

    /// The lengths to hand `tcp_recved` for the packets still queued when
    /// the connection closes.
    pub fn drain_acknowledgements(queue: &Vec<Option<PacketBuffer>>) -> (r: Vec<u16>)
        ensures
            r@.len() == acknowledgements(queued_chains(queue@)).len(),
            forall|i: int|
                0 <= i < r@.len() ==> r@[i] == acknowledgements(queued_chains(queue@))[i],
    {
        let mut r: Vec<u16> = Vec::new();
        let mut i: usize = 0;
        while i < queue.len()
            invariant
                i <= queue@.len(),
                r@.len() == acknowledgements(queued_chains(queue@).take(i as int)).len(),
                forall|k: int|
                    0 <= k < r@.len() ==> r@[k] == acknowledgements(
                        queued_chains(queue@).take(i as int),
                    )[k],
            decreases queue@.len() - i,
        {
            let ghost qc = queued_chains(queue@);
            proof {
                assert(qc.take(i + 1).drop_last() =~= qc.take(i as int));
            }
            match &queue[i] {
                Some(p) => {
                    let n = p.total_len();
                    r.push(n);
                },
                None => {},
            }
            i = i + 1;
        }
        assert(queued_chains(queue@).take(queue@.len() as int) =~= queued_chains(queue@));
        r
    }
}

/// The writing half of a connection handed to the HTTP server.
pub struct PicoWriter {
    pub conn: TcpConnection,
}

impl PicoWriter {
    /// How much of `buf` counts as written once `tcp_write` (made once,
    /// by the caller, with the whole buffer) answered `res`: all of it when
    /// lwIP took it, nothing otherwise.
    pub fn write(&self, buf: &[u8], res: Result<(), err_t>) -> (r: usize)
        ensures
            res is Ok ==> r == buf@.len(),
            res is Err ==> r == 0,
    {
        match res {
            Ok(()) => buf.len(),
            Err(_) => 0,
        }
    }
}

} // verus!
