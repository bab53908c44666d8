//! Filling a buffer with random bytes from the STM32's hardware random
//! number generator.
use vstd::prelude::*;

verus! {

/// The STM32 HAL's status codes.
#[derive(PartialEq, Eq, Structural, Debug, Clone, Copy)]
pub enum HalStatus {
    Success,
    Error,
    Busy,
    Timeout,
}

impl HalStatus {
    /// The value the C side uses for this variant.
    pub open spec fn spec_code(self) -> u32 {
        match self {
            HalStatus::Success => 0,
            HalStatus::Error => 1,
            HalStatus::Busy => 2,
            HalStatus::Timeout => 3,
        }
    }

    pub fn code(&self) -> (r: u32)
        ensures
            r == self.spec_code(),
    {
        match self {
            HalStatus::Success => 0,
            HalStatus::Error => 1,
            HalStatus::Busy => 2,
            HalStatus::Timeout => 3,
        }
    }

    /// The variant with the C value `code`, if there is one.
    pub fn from_code(code: u32) -> (r: Option<HalStatus>)
        ensures
            r == HalStatus::from_code_spec(code),
            r matches Some(v) ==> v.spec_code() == code,
            r is None ==> forall|v: HalStatus| v.spec_code() != code,
    {
        if code == 0 {
            return Some(HalStatus::Success);
        }
        if code == 1 {
            return Some(HalStatus::Error);
        }
        if code == 2 {
            return Some(HalStatus::Busy);
        }
        if code == 3 {
            return Some(HalStatus::Timeout);
        }
        proof {
            assert forall|v: HalStatus| v.spec_code() != code by {
                match v {
                    HalStatus::Success => {},
                    HalStatus::Error => {},
                    HalStatus::Busy => {},
                    HalStatus::Timeout => {},
                }
            }
        }
        None
    }

    /// The name of the status.
    pub open spec fn spec_message(self) -> &'static str {
        match self {
            HalStatus::Success => "Ok",
            HalStatus::Error => "Error",
            HalStatus::Busy => "Busy",
            HalStatus::Timeout => "Timeout",
        }
    }

    pub fn message(&self) -> (r: &'static str)
        ensures
            r == self.spec_message(),
    {
        match self {
            HalStatus::Success => "Ok",
            HalStatus::Error => "Error",
            HalStatus::Busy => "Busy",
            HalStatus::Timeout => "Timeout",
        }
    }
}

impl HalStatus {
    /// The variant with the C value `code`, if there is one.
    pub open spec fn from_code_spec(code: u32) -> Option<HalStatus> {
        if code == 0 {
            Some(HalStatus::Success)
        } else if code == 1 {
            Some(HalStatus::Error)
        } else if code == 2 {
            Some(HalStatus::Busy)
        } else if code == 3 {
            Some(HalStatus::Timeout)
        } else {
            None
        }
    }
}

/// Each of the HAL's codes names one status: the code of a status reads back as that status.
pub proof fn law_hal_status_codes_round_trip(v: HalStatus)
    ensures
        HalStatus::from_code_spec(v.spec_code()) == Some(v),
{
    match v {
        HalStatus::Success => {},
        HalStatus::Error => {},
        HalStatus::Busy => {},
        HalStatus::Timeout => {},
    }
}

/// The bytes of `x`, least significant first.
pub open spec fn le_bytes(x: u32) -> Seq<u8> {
    seq![(x % 0x100) as u8, (x / 0x100 % 0x100) as u8, (x / 0x1_0000 % 0x100) as u8, (x / 0x100_0000) as u8]
}

/// The bytes of `x`, least significant first.
pub fn to_le_bytes(x: u32) -> (r: [u8; 4])
    ensures
        r@ == le_bytes(x),
{
    let b0 = (x & 0xff) as u8;
    let b1 = ((x >> 8) & 0xff) as u8;
    let b2 = ((x >> 16) & 0xff) as u8;
    let b3 = (x >> 24) as u8;
    assert(b0 == (x % 0x100) as u8 && b1 == (x / 0x100 % 0x100) as u8 && b2 == (x / 0x1_0000
        % 0x100) as u8 && b3 == (x / 0x100_0000) as u8) by (bit_vector)
        requires
            b0 == (x & 0xff) as u8,
            b1 == ((x >> 8) & 0xff) as u8,
            b2 == ((x >> 16) & 0xff) as u8,
            b3 == (x >> 24) as u8,
    ;
    let r = [b0, b1, b2, b3];
    assert(r@ =~= le_bytes(x));
    r
}

/// Random bytes being gathered for a request of `wanted` bytes.
pub struct RandomFill {
    pub wanted: usize,
    pub bytes: Vec<u8>,
}

impl RandomFill {
    pub fn new(wanted: usize) -> (r: RandomFill)
        ensures
            r.wanted == wanted,
            r.bytes@ == Seq::<u8>::empty(),
    {
        RandomFill { wanted, bytes: Vec::new() }
    }

    /// Whether all the bytes wanted are there.
    pub fn is_complete(&self) -> (r: bool)
        ensures
            r == (self.bytes@.len() >= self.wanted),
    {
        self.bytes.len() >= self.wanted
    }

    /// Takes in one answer of `HAL_RNG_GenerateRandomNumber`: on success
    /// the bytes of the number, least significant first, as many as are
    /// still wanted; a busy generator is asked again; any other status is
    /// an error.
    pub fn absorb(&mut self, status: HalStatus, random: u32) -> (r: Result<(), ()>)
        requires
            old(self).bytes@.len() < old(self).wanted,
        ensures
            final(self).wanted == old(self).wanted,
            status == HalStatus::Success ==> r is Ok && final(self).bytes@ == old(self).bytes@
                + le_bytes(random).take(
                if old(self).wanted - old(self).bytes@.len() < 4 {
                    old(self).wanted - old(self).bytes@.len()
                } else {
                    4
                },
            ),
            status == HalStatus::Busy ==> r is Ok && final(self).bytes@ == old(self).bytes@,
            status == HalStatus::Error || status == HalStatus::Timeout ==> r is Err
                && final(self).bytes@ == old(self).bytes@,
    {
        match status {
            HalStatus::Success => {
                let b = to_le_bytes(random);
                let remaining = self.wanted - self.bytes.len();
                let take: usize = if remaining < 4 {
                    remaining
                } else {
                    4
                };
                let ghost start = self.bytes@;
                let mut k: usize = 0;
                while k < take
                    invariant
                        take <= 4,
                        k <= take,
                        b@ == le_bytes(random),
                        self.wanted == old(self).wanted,
                        self.bytes@ =~= start + b@.take(k as int),
                    decreases take - k,
                {
                    self.bytes.push(b[k]);
                    proof {
                        assert(b@.take(k + 1) =~= b@.take(k as int).push(b@[k as int]));
                    }
                    k = k + 1;
                }
                Ok(())
            },
            HalStatus::Busy => Ok(()),
            _ => Err(()),
        }
    }
}

} // verus!
