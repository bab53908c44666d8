//! The C types of lwIP that the library reads, and lwIP's codes.
use vstd::prelude::*;

verus! {

/// A TCP or UDP protocol control block; lwIP owns it and the library only
/// hands it back.
#[allow(non_camel_case_types)]
pub struct pcb;

/// An IPv4 address as lwIP stores it: the four octets in network order,
/// read as one word.
#[allow(non_camel_case_types)]
#[derive(PartialEq, Eq, Structural, Debug, Clone, Copy)]
pub struct ip_addr_t {
    pub addr: u32,
}

/// One link of a packet buffer chain: its payload, the length of this
/// link and the length of the whole chain from here on.
#[allow(non_camel_case_types)]
pub struct pbuf {
    pub payload: Vec<u8>,
    pub tot_len: u16,
    pub len: u16,
}

/// A network interface: its address, netmask and gateway.
#[allow(non_camel_case_types)]
pub struct netif {
    pub ip_addr: ip_addr_t,
    pub netmask: ip_addr_t,
    pub gateway: ip_addr_t,
}

/// lwIP's core lock; the C side owns it.
#[allow(non_camel_case_types)]
pub struct sys_mutex_t;

/// `tcp_write` copies the data it is given.
pub const TCP_WRITE_FLAG_COPY: u8 = 0x01;

/// Header room to reserve in a new packet buffer.
#[allow(non_camel_case_types)]
#[derive(PartialEq, Eq, Structural, Debug, Clone, Copy)]
pub enum pbuf_layer {
    Transport,
    Ip,
    Link,
    Raw,
}

impl pbuf_layer {
    /// The number of header bytes: an Ethernet header of 14 bytes, an IPv4
    /// header of 20 and a transport header of 20, as far as the layer goes.
    pub fn value(&self) -> (r: u32)
        ensures
            r == match self {
                pbuf_layer::Transport => 14 + 20 + 20,
                pbuf_layer::Ip => 14 + 20,
                pbuf_layer::Link => 14,
                pbuf_layer::Raw => 0,
            },
    {
        match self {
            pbuf_layer::Transport => 54,
            pbuf_layer::Ip => 34,
            pbuf_layer::Link => 14,
            pbuf_layer::Raw => 0,
        }
    }
}

/// Where a new packet buffer's memory comes from.
#[allow(non_camel_case_types)]
#[derive(PartialEq, Eq, Structural, Debug, Clone, Copy)]
pub enum pbuf_type {
    Ram,
    Rom,
    Ref,
    Pool,
}

impl pbuf_type {
    /// lwIP's flags for the type: the allocation source in the low four
    /// bits, 0x40 for volatile data, 0x80 for a struct contiguous with its
    /// data, 0x100 for a receive buffer and 0x200 for contiguous data.
    pub fn value(&self) -> (r: u32)
        ensures
            r == match self {
                pbuf_type::Ram => 0x200 + 0x80 + 0x00,
                pbuf_type::Rom => 0x01,
                pbuf_type::Ref => 0x40 + 0x01,
                pbuf_type::Pool => 0x100 + 0x80 + 0x02,
            },
    {
        match self {
            pbuf_type::Ram => 0x280,
            pbuf_type::Rom => 0x01,
            pbuf_type::Ref => 0x41,
            pbuf_type::Pool => 0x182,
        }
    }
}

/// lwIP's error codes.
#[derive(PartialEq, Eq, Structural, Debug, Clone, Copy)]
#[allow(non_camel_case_types)]
pub enum err_t {
    Success,
    Mem,
    Buf,
    Timeout,
    Rte,
    InProgress,
    Val,
    WouldBlock,
    Use,
    Already,
    IsConn,
    Conn,
    If,
    Abrt,
    Rst,
    Clsd,
    Arg,
}

impl err_t {
    /// The value the C side uses for this variant.
    pub open spec fn spec_code(self) -> i8 {
        match self {
            err_t::Success => 0,
            err_t::Mem => -1i8,
            err_t::Buf => -2i8,
            err_t::Timeout => -3i8,
            err_t::Rte => -4i8,
            err_t::InProgress => -5i8,
            err_t::Val => -6i8,
            err_t::WouldBlock => -7i8,
            err_t::Use => -8i8,
            err_t::Already => -9i8,
            err_t::IsConn => -10i8,
            err_t::Conn => -11i8,
            err_t::If => -12i8,
            err_t::Abrt => -13i8,
            err_t::Rst => -14i8,
            err_t::Clsd => -15i8,
            err_t::Arg => -16i8,
        }
    }

    pub fn code(&self) -> (r: i8)
        ensures
            r == self.spec_code(),
    {
        match self {
            err_t::Success => 0,
            err_t::Mem => -1i8,
            err_t::Buf => -2i8,
            err_t::Timeout => -3i8,
            err_t::Rte => -4i8,
            err_t::InProgress => -5i8,
            err_t::Val => -6i8,
            err_t::WouldBlock => -7i8,
            err_t::Use => -8i8,
            err_t::Already => -9i8,
            err_t::IsConn => -10i8,
            err_t::Conn => -11i8,
            err_t::If => -12i8,
            err_t::Abrt => -13i8,
            err_t::Rst => -14i8,
            err_t::Clsd => -15i8,
            err_t::Arg => -16i8,
        }
    }

    /// The variant with the C value `code`, if there is one.
    pub fn from_code(code: i8) -> (r: Option<err_t>)
        ensures
            r == err_t::from_code_spec(code),
            r matches Some(v) ==> v.spec_code() == code,
            r is None ==> forall|v: err_t| v.spec_code() != code,
    {
        if code == 0 {
            return Some(err_t::Success);
        }
        if code == -1 {
            return Some(err_t::Mem);
        }
        if code == -2 {
            return Some(err_t::Buf);
        }
        if code == -3 {
            return Some(err_t::Timeout);
        }
        if code == -4 {
            return Some(err_t::Rte);
        }
        if code == -5 {
            return Some(err_t::InProgress);
        }
        if code == -6 {
            return Some(err_t::Val);
        }
        if code == -7 {
            return Some(err_t::WouldBlock);
        }
        if code == -8 {
            return Some(err_t::Use);
        }
        if code == -9 {
            return Some(err_t::Already);
        }
        if code == -10 {
            return Some(err_t::IsConn);
        }
        if code == -11 {
            return Some(err_t::Conn);
        }
        if code == -12 {
            return Some(err_t::If);
        }
        if code == -13 {
            return Some(err_t::Abrt);
        }
        if code == -14 {
            return Some(err_t::Rst);
        }
        if code == -15 {
            return Some(err_t::Clsd);
        }
        if code == -16 {
            return Some(err_t::Arg);
        }
        proof {
            assert forall|v: err_t| v.spec_code() != code by {
                match v {
                    err_t::Success => {},
                    err_t::Mem => {},
                    err_t::Buf => {},
                    err_t::Timeout => {},
                    err_t::Rte => {},
                    err_t::InProgress => {},
                    err_t::Val => {},
                    err_t::WouldBlock => {},
                    err_t::Use => {},
                    err_t::Already => {},
                    err_t::IsConn => {},
                    err_t::Conn => {},
                    err_t::If => {},
                    err_t::Abrt => {},
                    err_t::Rst => {},
                    err_t::Clsd => {},
                    err_t::Arg => {},
                }
            }
        }
        None
    }

    /// The description of the error.
    pub open spec fn spec_message(self) -> &'static str {
        match self {
            err_t::Success => "Ok: No error, all is ok",
            err_t::Mem => "Out of memory error",
            err_t::Buf => "Buffer error",
            err_t::Timeout => "Timeout",
            err_t::Rte => "Routing problem",
            err_t::InProgress => "Operation in progress",
            err_t::Val => "Illegal value",
            err_t::WouldBlock => "Operation would block",
            err_t::Use => "Address in use",
            err_t::Already => "Already connecting / already connected",
            err_t::IsConn => "Connection already established",
            err_t::Conn => "Not connected",
            err_t::If => "Low-level netif error",
            err_t::Abrt => "Connection aborted",
            err_t::Rst => "Connection reset",
            err_t::Clsd => "Connection closed",
            err_t::Arg => "Illegal argument",
        }
    }

    pub fn message(&self) -> (r: &'static str)
        ensures
            r == self.spec_message(),
    {
        match self {
            err_t::Success => "Ok: No error, all is ok",
            err_t::Mem => "Out of memory error",
            err_t::Buf => "Buffer error",
            err_t::Timeout => "Timeout",
            err_t::Rte => "Routing problem",
            err_t::InProgress => "Operation in progress",
            err_t::Val => "Illegal value",
            err_t::WouldBlock => "Operation would block",
            err_t::Use => "Address in use",
            err_t::Already => "Already connecting / already connected",
            err_t::IsConn => "Connection already established",
            err_t::Conn => "Not connected",
            err_t::If => "Low-level netif error",
            err_t::Abrt => "Connection aborted",
            err_t::Rst => "Connection reset",
            err_t::Clsd => "Connection closed",
            err_t::Arg => "Illegal argument",
        }
    }
}

impl err_t {
    /// The variant with the C value `code`, if there is one.
    pub open spec fn from_code_spec(code: i8) -> Option<err_t> {
        if code == 0 {
            Some(err_t::Success)
        } else if code == -1i8 {
            Some(err_t::Mem)
        } else if code == -2i8 {
            Some(err_t::Buf)
        } else if code == -3i8 {
            Some(err_t::Timeout)
        } else if code == -4i8 {
            Some(err_t::Rte)
        } else if code == -5i8 {
            Some(err_t::InProgress)
        } else if code == -6i8 {
            Some(err_t::Val)
        } else if code == -7i8 {
            Some(err_t::WouldBlock)
        } else if code == -8i8 {
            Some(err_t::Use)
        } else if code == -9i8 {
            Some(err_t::Already)
        } else if code == -10i8 {
            Some(err_t::IsConn)
        } else if code == -11i8 {
            Some(err_t::Conn)
        } else if code == -12i8 {
            Some(err_t::If)
        } else if code == -13i8 {
            Some(err_t::Abrt)
        } else if code == -14i8 {
            Some(err_t::Rst)
        } else if code == -15i8 {
            Some(err_t::Clsd)
        } else if code == -16i8 {
            Some(err_t::Arg)
        } else {
            None
        }
    }
}

/// Each of lwIP's codes names one error: the code of an error reads back as that error.
pub proof fn law_err_t_codes_round_trip(v: err_t)
    ensures
        err_t::from_code_spec(v.spec_code()) == Some(v),
{
    match v {
        err_t::Success => {},
        err_t::Mem => {},
        err_t::Buf => {},
        err_t::Timeout => {},
        err_t::Rte => {},
        err_t::InProgress => {},
        err_t::Val => {},
        err_t::WouldBlock => {},
        err_t::Use => {},
        err_t::Already => {},
        err_t::IsConn => {},
        err_t::Conn => {},
        err_t::If => {},
        err_t::Abrt => {},
        err_t::Rst => {},
        err_t::Clsd => {},
        err_t::Arg => {},
    }
}


} // verus!
