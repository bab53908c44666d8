//! An address that lwIP handed over.
use vstd::prelude::*;

use super::bindings::ip_addr_t;

verus! {

/// An address lwIP handed to a callback, known to be present.
pub struct IpAddr {
    inner: ip_addr_t,
}

impl View for IpAddr {
    type V = u32;

    closed spec fn view(&self) -> u32 {
        self.inner.addr
    }
}

/// Why an `IpAddr` could not be made.
#[derive(PartialEq, Eq, Structural, Debug, Clone, Copy)]
pub enum Error {
    Null,
}

impl Error {
    pub fn message(&self) -> (r: &'static str)
        ensures
            r == "Value is null.",
    {
        "Value is null."
    }
}

impl IpAddr {
    /// An address from what lwIP handed over: none at all is refused.
    pub fn try_from(value: Option<ip_addr_t>) -> (r: Result<IpAddr, Error>)
        ensures
            match value {
                None => r == Err::<IpAddr, Error>(Error::Null),
                Some(a) => r matches Ok(ip) && ip@ == a.addr,
            },
    {
        match value {
            None => Err(Error::Null),
            Some(a) => Ok(IpAddr { inner: a }),
        }
    }

    /// The raw address, in lwIP's network byte order.
    pub fn addr(&self) -> (r: u32)
        ensures
            r == self@,
    {
        self.inner.addr
    }
}

} // verus!
