//! The decisions around lwIP's UDP calls and callbacks: binding,
//! broadcasting and receiving.
use vstd::prelude::*;

use super::bindings::{err_t, ip_addr_t};
use super::packet_buffer::PacketBuffer;
use super::{host_order, to_host_order};

verus! {

/// The broadcast address, all ones.
pub open spec fn broadcast_addr() -> u32 {
    0xffff_ffff
}

/// The next lwIP call of a broadcast, or its end.
pub enum BroadcastStep {
    /// `udp_sendto` the packet to this address and port.
    SendTo(ip_addr_t, u16),
    /// The broadcast is over, with this result.
    Done(Result<(), err_t>),
}

/// A UDP socket: whether its control block is registered.
pub struct UdpSocket {
    pub pcb: bool,
}

/// The next lwIP call while binding, or the end.
#[derive(Debug, Clone, Copy)]
pub enum BindStep {
    /// `udp_new`: make a control block.
    New,
    /// `udp_bind` the block to this port on any address.
    Bind(u16),
    /// Register the receive callback on the bound block; then succeed.
    Register,
    /// `udp_remove` the block, which would not bind; then fail with this error.
    RemoveAndFail(err_t),
    /// Fail with this error.
    Fail(err_t),
}

impl UdpSocket {
    pub fn new() -> (r: UdpSocket)
        ensures
            !r.pcb,
    {
        UdpSocket { pcb: false }
    }

    /// Binds the socket to `port`, on lwIP's thread, given the answers so
    /// far of `udp_new` (`made`) and `udp_bind` (`bound`): without a
    /// control block the answer is `Mem` and nothing else is called; on
    /// success the receive callback is registered; a control block that
    /// would not bind is removed and the error given.
    pub fn bind(&mut self, port: u16, made: Option<bool>, bound: Option<err_t>) -> (r: BindStep)
        ensures
            made is None ==> r == BindStep::New,
            made == Some(false) ==> r == BindStep::Fail(err_t::Mem),
            made == Some(true) && bound is None ==> r == BindStep::Bind(port),
            made == Some(true) && bound == Some(err_t::Success) ==> r == BindStep::Register,
            made == Some(true) && bound is Some && bound->Some_0 != err_t::Success ==> r
                == BindStep::RemoveAndFail(bound->Some_0),
            final(self).pcb <==> old(self).pcb || r == BindStep::Register,
    {
        match made {
            None => BindStep::New,
            Some(false) => BindStep::Fail(err_t::Mem),
            Some(true) => match bound {
                None => BindStep::Bind(port),
                Some(b) => if b == err_t::Success {
                    self.pcb = true;
                    BindStep::Register
                } else {
                    BindStep::RemoveAndFail(b)
                },
            },
        }
    }

    /// Broadcasts a packet to `port`, given `udp_sendto`'s answer once it
    /// was made: a socket without a control block refuses with `Val` and
    /// sends nothing; otherwise the packet is sent once to the all-ones
    /// address, and lwIP's answer is the result.
    pub fn broadcast(&self, port: u16, sent: Option<err_t>) -> (r: BroadcastStep)
        ensures
            !self.pcb ==> r == BroadcastStep::Done(Err(err_t::Val)),
            self.pcb && sent is None ==> r == BroadcastStep::SendTo(
                ip_addr_t { addr: broadcast_addr() },
                port,
            ),
            self.pcb && sent == Some(err_t::Success) ==> r == BroadcastStep::Done(Ok(())),
            self.pcb && sent is Some && sent->Some_0 != err_t::Success ==> r == BroadcastStep::Done(
                Err(sent->Some_0),
            ),
    {
        if !self.pcb {
            return BroadcastStep::Done(Err(err_t::Val));
        }
        match sent {
            None => BroadcastStep::SendTo(ip_addr_t { addr: 0xffff_ffff }, port),
            Some(e) => if e == err_t::Success {
                BroadcastStep::Done(Ok(()))
            } else {
                BroadcastStep::Done(Err(e))
            },
        }
    }

    /// The receive callback: what is queued for the socket's task, the
    /// sender's address in host order and the packet. Nothing is queued
    /// without a socket or a packet.
    pub fn on_recv(sock_present: bool, pbuf: Option<PacketBuffer>, addr: ip_addr_t) -> (r: Option<
        (u32, PacketBuffer),
    >)
        ensures
            !sock_present || pbuf is None ==> r is None,
            sock_present && pbuf is Some ==> (r matches Some(q) && q.0 == host_order(addr.addr) && q.1@
                == pbuf->0@),
    {
        if !sock_present {
            return None;
        }
        match pbuf {
            None => None,
            Some(pb) => Some((to_host_order(addr.addr), pb)),
        }
    }
}

} // verus!
