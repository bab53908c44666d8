use derusting::boot::{boot_next, Boot, BootAction, TCP_PORT, UDP_PORT};
use derusting::free_rtos::{
    notify_timeout, pender_wake, stack_depth_words, yield_from_isr, FreeRtosError,
    FreeRtosTimeDriver, Task, Wake,
};
use derusting::log::{c_message, Severity};
use derusting::tasks::rng::{to_le_bytes, HalStatus, RandomFill};

#[test]
fn free_rtos_codes() {
    assert_eq!(FreeRtosError::Success.code(), 1);
    assert_eq!(FreeRtosError::Unknown.code(), -99);
    assert_eq!(FreeRtosError::from_code(-1), Some(FreeRtosError::InsufficientHeapMemory));
    assert_eq!(FreeRtosError::from_code(2), None);
    assert_eq!(FreeRtosError::InsufficientHeapMemory.message(), "Insufficient Heap Memory.");
}

#[test]
fn task_creation() {
    assert_eq!(Task::new(FreeRtosError::Success, 0x2000).ok().unwrap().as_mut_ptr(), 0x2000);
    assert!(matches!(Task::new(FreeRtosError::GenericFailure, 0x2000), Err(FreeRtosError::GenericFailure)));
    assert!(Task::try_from(0).is_err());
    assert_eq!(Task::try_from(8).ok().unwrap().as_mut_ptr(), 8);
    assert_eq!(stack_depth_words(10 * 1024), 2560);
    assert_eq!(stack_depth_words(4 * 65_536 + 8), 2);
}

#[test]
fn clock_follows_ticks_across_wrap() {
    let mut d = FreeRtosTimeDriver::new();
    assert_eq!(d.now(0), 0);
    assert_eq!(d.now(1000), 1000);
    assert_eq!(d.now(1000), 1000);
    d.free_rtos_now = u32::MAX - 4;
    assert_eq!(d.now(5), 1010);
    assert_eq!(d.free_rtos_now, 5);
}

#[test]
fn sleeping_until_the_next_timer() {
    assert_eq!(notify_timeout(100, 50), 0);
    assert_eq!(notify_timeout(100, 350), 250);
    assert_eq!(notify_timeout(0, u64::MAX), u32::MAX);
    assert_eq!(notify_timeout(0, 1u64 << 32), 0);
}

#[test]
fn pender() {
    assert_eq!(pender_wake(false, 3), Wake::Nothing);
    assert_eq!(pender_wake(true, 3), Wake::FromIsr);
    assert_eq!(pender_wake(true, 0), Wake::FromTask);
    assert!(yield_from_isr(1));
    assert!(!yield_from_isr(0));
}

#[test]
fn boot_sequence() {
    let (s, a) = boot_next(Boot::Start, true);
    assert_eq!(a, BootAction::BindUdp(UDP_PORT));
    let (s, a) = boot_next(s, true);
    assert_eq!(a, BootAction::ListenTcp(TCP_PORT));
    let (s, a) = boot_next(s, true);
    assert_eq!(a, BootAction::CheckAddress);
    let (s, a) = boot_next(s, false);
    assert_eq!(a, BootAction::WaitThenCheck(1));
    let (s, a) = boot_next(s, true);
    assert_eq!((s, a), (Boot::Running, BootAction::SpawnTasks));
    assert_eq!(boot_next(Boot::BindingUdp, false), (Boot::Stopped, BootAction::Halt));
    assert_eq!(boot_next(Boot::ListeningTcp, false), (Boot::Stopped, BootAction::Halt));
    assert_eq!(UDP_PORT, 9090);
    assert_eq!(TCP_PORT, 8080);
}

#[test]
fn log_messages() {
    assert_eq!(Severity::Error.code(), 4);
    assert_eq!(Severity::from_code(1), Some(Severity::Debug));
    assert_eq!(c_message("hello".to_string()), "hello\0");
}

#[test]
fn random_bytes() {
    assert_eq!(to_le_bytes(0x0403_0201), [1, 2, 3, 4]);
    let mut f = RandomFill::new(6);
    assert!(!f.is_complete());
    assert_eq!(f.absorb(HalStatus::Success, 0x0403_0201), Ok(()));
    assert_eq!(f.absorb(HalStatus::Busy, 0), Ok(()));
    assert_eq!(f.bytes, vec![1, 2, 3, 4]);
    assert_eq!(f.absorb(HalStatus::Success, 0x0807_0605), Ok(()));
    assert_eq!(f.bytes, vec![1, 2, 3, 4, 5, 6]);
    assert!(f.is_complete());
    let mut g = RandomFill::new(2);
    assert_eq!(g.absorb(HalStatus::Timeout, 7), Err(()));
    assert_eq!(g.absorb(HalStatus::Error, 7), Err(()));
    assert!(g.bytes.is_empty());
    assert!(RandomFill::new(0).is_complete());
    assert_eq!(HalStatus::Busy.code(), 2);
}
