//! The library's side of FreeRTOS: what task creation answers, the tick
//! clock behind the Embassy time driver, and how the executor's task is
//! woken.
use vstd::prelude::*;

verus! {

/// The results of FreeRTOS task creation.
#[derive(PartialEq, Eq, Structural, Debug, Clone, Copy)]
pub enum FreeRtosError {
    InsufficientHeapMemory,
    GenericFailure,
    Unknown,
    Success,
}

impl FreeRtosError {
    /// The value the C side uses for this variant.
    pub open spec fn spec_code(self) -> i32 {
        match self {
            FreeRtosError::InsufficientHeapMemory => -1i32,
            FreeRtosError::GenericFailure => 0,
            FreeRtosError::Unknown => -99i32,
            FreeRtosError::Success => 1,
        }
    }

    pub fn code(&self) -> (r: i32)
        ensures
            r == self.spec_code(),
    {
        match self {
            FreeRtosError::InsufficientHeapMemory => -1i32,
            FreeRtosError::GenericFailure => 0,
            FreeRtosError::Unknown => -99i32,
            FreeRtosError::Success => 1,
        }
    }

    /// The variant with the C value `code`, if there is one.
    pub fn from_code(code: i32) -> (r: Option<FreeRtosError>)
        ensures
            r == FreeRtosError::from_code_spec(code),
            r matches Some(v) ==> v.spec_code() == code,
            r is None ==> forall|v: FreeRtosError| v.spec_code() != code,
    {
        if code == -1 {
            return Some(FreeRtosError::InsufficientHeapMemory);
        }
        if code == 0 {
            return Some(FreeRtosError::GenericFailure);
        }
        if code == -99 {
            return Some(FreeRtosError::Unknown);
        }
        if code == 1 {
            return Some(FreeRtosError::Success);
        }
        proof {
            assert forall|v: FreeRtosError| v.spec_code() != code by {
                match v {
                    FreeRtosError::InsufficientHeapMemory => {},
                    FreeRtosError::GenericFailure => {},
                    FreeRtosError::Unknown => {},
                    FreeRtosError::Success => {},
                }
            }
        }
        None
    }

    /// The description of the result.
    pub open spec fn spec_message(self) -> &'static str {
        match self {
            FreeRtosError::InsufficientHeapMemory => "Insufficient Heap Memory.",
            FreeRtosError::GenericFailure => "Generic Failure.",
            FreeRtosError::Unknown => "Unknown",
            FreeRtosError::Success => "OK",
        }
    }

    pub fn message(&self) -> (r: &'static str)
        ensures
            r == self.spec_message(),
    {
        match self {
            FreeRtosError::InsufficientHeapMemory => "Insufficient Heap Memory.",
            FreeRtosError::GenericFailure => "Generic Failure.",
            FreeRtosError::Unknown => "Unknown",
            FreeRtosError::Success => "OK",
        }
    }
}

impl FreeRtosError {
    /// The variant with the C value `code`, if there is one.
    pub open spec fn from_code_spec(code: i32) -> Option<FreeRtosError> {
        if code == -1i32 {
            Some(FreeRtosError::InsufficientHeapMemory)
        } else if code == 0 {
            Some(FreeRtosError::GenericFailure)
        } else if code == -99i32 {
            Some(FreeRtosError::Unknown)
        } else if code == 1 {
            Some(FreeRtosError::Success)
        } else {
            None
        }
    }
}

/// Each of FreeRTOS's codes names one result: the code of a result reads back as that result.
pub proof fn law_free_rtos_codes_round_trip(v: FreeRtosError)
    ensures
        FreeRtosError::from_code_spec(v.spec_code()) == Some(v),
{
    match v {
        FreeRtosError::InsufficientHeapMemory => {},
        FreeRtosError::GenericFailure => {},
        FreeRtosError::Unknown => {},
        FreeRtosError::Success => {},
    }
}

/// Hooks the FreeRTOS heap in as the allocator.
pub struct FreeRtosAllocator;

/// A FreeRTOS task, by the address of its handle.
pub struct Task {
    inner: usize,
}

impl View for Task {
    type V = usize;

    closed spec fn view(&self) -> usize {
        self.inner
    }
}

impl Task {
    /// The task `xTaskCreate` made, given its answer and the handle it
    /// wrote: only an `OK` answer gives a task.
    pub fn new(res: FreeRtosError, handle: usize) -> (r: Result<Task, FreeRtosError>)
        ensures
            res == FreeRtosError::Success ==> (r matches Ok(t) && t@ == handle),
            res != FreeRtosError::Success ==> r == Err::<Task, FreeRtosError>(res),
    {
        match res {
            FreeRtosError::Success => Ok(Task { inner: handle }),
            _ => Err(res),
        }
    }

    /// The task behind a handle; a null handle is refused.
    pub fn try_from(handle: usize) -> (r: Result<Task, ()>)
        ensures
            handle == 0 ==> r is Err,
            handle != 0 ==> (r matches Ok(t) && t@ == handle),
    {
        if handle == 0 {
            Err(())
        } else {
            Ok(Task { inner: handle })
        }
    }

    /// The address of the task's handle.
    pub fn as_mut_ptr(&self) -> (r: usize)
        ensures
            r == self@,
    {
        self.inner
    }
}

/// The stack depth, in 32-bit words, that `xTaskCreateStatic` is given for
/// a stack of `len` bytes; it takes the depth as 16 bits, so the count is
/// truncated.
pub fn stack_depth_words(len: usize) -> (r: u16)
    ensures
        r == (len / 4) % 0x1_0000,
{
    let words = len / 4;
    let r = words as u16;
    assert(r == words % 0x1_0000) by (bit_vector)
        requires
            r == words as u16,
    ;
    r
}

/// The state of the Embassy time driver: the time kept, in ticks of one
/// millisecond, and FreeRTOS's tick count when it was last read.
pub struct FreeRtosTimeDriver {
    pub timekeeper: u64,
    pub free_rtos_now: u32,
}

/// The ticks between two readings of FreeRTOS's 32-bit tick count, which
/// wraps after 49 days.
pub open spec fn tick_diff(now: u32, previous: u32) -> int {
    (now - previous) % 0x1_0000_0000
}

/// The driver's state after reading FreeRTOS's tick count `ticks`.
pub open spec fn driver_after(d: FreeRtosTimeDriver, ticks: u32) -> FreeRtosTimeDriver {
    if tick_diff(ticks, d.free_rtos_now) == 0 {
        d
    } else {
        FreeRtosTimeDriver {
            timekeeper: ((d.timekeeper + tick_diff(ticks, d.free_rtos_now)) % 0x1_0000_0000_0000_0000) as u64,
            free_rtos_now: ticks,
        }
    }
}

impl FreeRtosTimeDriver {
    pub fn new() -> (r: FreeRtosTimeDriver)
        ensures
            r.timekeeper == 0,
            r.free_rtos_now == 0,
    {
        FreeRtosTimeDriver { timekeeper: 0, free_rtos_now: 0 }
    }

    /// The time now, given FreeRTOS's tick count `ticks`: the ticks since
    /// the last reading are added to the time kept, which wraps on
    /// overflow.
    pub fn now(&mut self, ticks: u32) -> (r: u64)
        ensures
            tick_diff(ticks, old(self).free_rtos_now) == 0 ==> *final(self) == *old(self),
            tick_diff(ticks, old(self).free_rtos_now) > 0 ==> final(self).free_rtos_now == ticks
                && final(self).timekeeper == (old(self).timekeeper + tick_diff(
                ticks,
                old(self).free_rtos_now,
            )) % 0x1_0000_0000_0000_0000,
            r == final(self).timekeeper,
            *final(self) == driver_after(*old(self), ticks),
    {
        let diff = ticks.wrapping_sub(self.free_rtos_now);
        if diff > 0 {
            self.free_rtos_now = ticks;
            self.timekeeper = self.timekeeper.wrapping_add(diff as u64);
        }
        self.timekeeper
    }
}

/// The clock counts the ticks that elapsed between two readings, also when
/// FreeRTOS's counter wrapped in between, as long as fewer than 2^32 ticks
/// (49 days) passed.
pub proof fn law_clock_counts_elapsed_ticks(previous: u32, elapsed: nat)
    requires
        elapsed < 0x1_0000_0000,
    ensures
        tick_diff(((previous + elapsed) % 0x1_0000_0000) as u32, previous) == elapsed,
{
    let now = (previous + elapsed) % 0x1_0000_0000;
    if previous + elapsed >= 0x1_0000_0000 {
        assert(now == previous + elapsed - 0x1_0000_0000);
        assert((now - previous) % 0x1_0000_0000 == elapsed) by {
            vstd::arithmetic::div_mod::lemma_mod_add_multiples_vanish(elapsed as int, 0x1_0000_0000);
            vstd::arithmetic::div_mod::lemma_small_mod(elapsed, 0x1_0000_0000);
        }
    } else {
        vstd::arithmetic::div_mod::lemma_small_mod((previous + elapsed) as nat, 0x1_0000_0000);
        vstd::arithmetic::div_mod::lemma_small_mod(elapsed, 0x1_0000_0000);
    }
}

/// The time the driver reports never goes back while the time kept fits in
/// 64 bits.
pub proof fn law_clock_never_goes_back(timekeeper: u64, previous: u32, ticks: u32)
    requires
        timekeeper + tick_diff(ticks, previous) < 0x1_0000_0000_0000_0000,
    ensures
        (timekeeper + tick_diff(ticks, previous)) % 0x1_0000_0000_0000_0000 >= timekeeper,
{
    let d = tick_diff(ticks, previous);
    assert(0 <= d);
    vstd::arithmetic::div_mod::lemma_small_mod(
        (timekeeper + d) as nat,
        0x1_0000_0000_0000_0000,
    );
}

/// Two successive readings of the clock, at FreeRTOS tick counts `t1` then
/// `t2`, differ by the ticks between them (`t2.wrapping_sub(t1)`), also
/// when the 32-bit counter wrapped in between: the later time is never
/// earlier, as long as the time kept fits in 64 bits.
pub proof fn law_successive_readings(d: FreeRtosTimeDriver, t1: u32, t2: u32)
    requires
        driver_after(d, t1).timekeeper + tick_diff(t2, t1) < 0x1_0000_0000_0000_0000,
    ensures
        driver_after(driver_after(d, t1), t2).timekeeper == driver_after(d, t1).timekeeper + tick_diff(
            t2,
            t1,
        ),
        driver_after(driver_after(d, t1), t2).timekeeper >= driver_after(d, t1).timekeeper,
{
    let d1 = driver_after(d, t1);
    if tick_diff(t1, d.free_rtos_now) == 0 {
        assert(t1 == d.free_rtos_now) by {
            if t1 != d.free_rtos_now {
                assert(0 < t1 - d.free_rtos_now + 0x1_0000_0000 < 0x2_0000_0000);
                vstd::arithmetic::div_mod::lemma_fundamental_div_mod(t1 - d.free_rtos_now, 0x1_0000_0000);
            }
        }
    }
    assert(d1.free_rtos_now == t1);
    let diff = tick_diff(t2, t1);
    assert(0 <= diff);
    vstd::arithmetic::div_mod::lemma_small_mod((d1.timekeeper + diff) as nat, 0x1_0000_0000_0000_0000);
}

/// How long the executor's task may sleep, in ticks, until the next timer
/// expires; the count FreeRTOS takes is 32 bits, so it is truncated.
pub fn notify_timeout(now: u64, expiration: u64) -> (r: u32)
    ensures
        expiration <= now ==> r == 0,
        expiration > now ==> r == (expiration - now) % 0x1_0000_0000,
{
    let diff = expiration.saturating_sub(now);
    let r = diff as u32;
    assert(r == diff % 0x1_0000_0000) by (bit_vector)
        requires
            r == diff as u32,
    ;
    r
}

/// How the pender wakes the executor's task.
#[derive(PartialEq, Eq, Structural, Debug, Clone, Copy)]
pub enum Wake {
    /// No task to wake.
    Nothing,
    /// From an interrupt, with `xTaskGenericNotifyFromISR`.
    FromIsr,
    /// From a task, with `xTaskGenericNotify`.
    FromTask,
}

/// Whether the pender wakes a task, and how: a non-zero interrupt
/// program status register means it runs in an interrupt.
pub fn pender_wake(context_present: bool, ipsr: u32) -> (r: Wake)
    ensures
        !context_present ==> r == Wake::Nothing,
        context_present && ipsr != 0 ==> r == Wake::FromIsr,
        context_present && ipsr == 0 ==> r == Wake::FromTask,
{
    if !context_present {
        Wake::Nothing
    } else if ipsr != 0 {
        Wake::FromIsr
    } else {
        Wake::FromTask
    }
}

/// Whether a context switch is to be pended after a notification from an
/// interrupt: when it woke a task of higher priority.
pub fn yield_from_isr(higher_priority_task_woken: i32) -> (r: bool)
    ensures
        r == (higher_priority_task_woken != 0),
{
    higher_priority_task_woken != 0
}

/// The value `xTaskGenericNotify` is given as its action: increment.
pub const NOTIFY_INCREMENT: u32 = 2;

} // verus!
