//! Bringing the network tasks up: UDP is bound, TCP listens, then the
//! tasks start once the printer has an address.
use vstd::prelude::*;

verus! {

/// The UDP port the printers talk on.
pub const UDP_PORT: u16 = 9090;

/// The TCP port uploads and the upload form are served on.
pub const TCP_PORT: u16 = 8080;

/// The number of datagrams queued for the UDP task.
pub const UDP_CHANNEL_SIZE: usize = 12;

/// The number of accepted connections queued for the TCP workers.
pub const MAX_TCP_CONNECTIONS: usize = 2;

/// The number of packets queued per TCP connection.
pub const MAX_TCP_CONNECTION_CHANNEL_SIZE: usize = 12;

/// How long the Embassy task waits before starting, in FreeRTOS ticks of
/// one millisecond.
pub const START_DELAY_TICKS: u32 = 5000;

/// How long to wait between looks for an address, in seconds.
pub const ADDRESS_POLL_SECS: u64 = 1;

/// Where bringing the tasks up stands.
#[derive(PartialEq, Eq, Structural, Debug, Clone, Copy)]
pub enum Boot {
    Start,
    BindingUdp,
    ListeningTcp,
    AwaitingAddress,
    Running,
    Stopped,
}

/// What is to be done next.
#[derive(PartialEq, Eq, Structural, Debug, Clone, Copy)]
pub enum BootAction {
    /// Bind the UDP socket to the port.
    BindUdp(u16),
    /// Listen for TCP connections on the port.
    ListenTcp(u16),
    /// Look for the default interface's address.
    CheckAddress,
    /// Wait this many seconds, then look for the address again.
    WaitThenCheck(u64),
    /// Start the heartbeat, address book, ledger, UDP receiver and TCP
    /// worker tasks.
    SpawnTasks,
    /// Give up: the network could not be brought up.
    Halt,
    /// Nothing more to do.
    Idle,
}

/// The next state and action, given whether the last action succeeded
/// (for `CheckAddress`: whether an address was found).
pub fn boot_next(state: Boot, ok: bool) -> (r: (Boot, BootAction))
    ensures
        r.0 == boot_step_spec(state, ok),
        state == Boot::Start ==> r == (Boot::BindingUdp, BootAction::BindUdp(UDP_PORT)),
        state == Boot::BindingUdp && ok ==> r == (Boot::ListeningTcp, BootAction::ListenTcp(TCP_PORT)),
        state == Boot::BindingUdp && !ok ==> r == (Boot::Stopped, BootAction::Halt),
        state == Boot::ListeningTcp && ok ==> r == (Boot::AwaitingAddress, BootAction::CheckAddress),
        state == Boot::ListeningTcp && !ok ==> r == (Boot::Stopped, BootAction::Halt),
        state == Boot::AwaitingAddress && ok ==> r == (Boot::Running, BootAction::SpawnTasks),
        state == Boot::AwaitingAddress && !ok ==> r == (
            Boot::AwaitingAddress,
            BootAction::WaitThenCheck(ADDRESS_POLL_SECS),
        ),
        state == Boot::Running ==> r == (Boot::Running, BootAction::Idle),
        state == Boot::Stopped ==> r == (Boot::Stopped, BootAction::Idle),
{
    match state {
        Boot::Start => (Boot::BindingUdp, BootAction::BindUdp(UDP_PORT)),
        Boot::BindingUdp => if ok {
            (Boot::ListeningTcp, BootAction::ListenTcp(TCP_PORT))
        } else {
            (Boot::Stopped, BootAction::Halt)
        },
        Boot::ListeningTcp => if ok {
            (Boot::AwaitingAddress, BootAction::CheckAddress)
        } else {
            (Boot::Stopped, BootAction::Halt)
        },
        Boot::AwaitingAddress => if ok {
            (Boot::Running, BootAction::SpawnTasks)
        } else {
            (Boot::AwaitingAddress, BootAction::WaitThenCheck(ADDRESS_POLL_SECS))
        },
        Boot::Running => (Boot::Running, BootAction::Idle),
        Boot::Stopped => (Boot::Stopped, BootAction::Idle),
    }
}

/// The state reached from `Start` by the outcomes `oks`, one per step.
pub open spec fn boot_run(oks: Seq<bool>) -> Boot
    decreases oks.len(),
{
    if oks.len() == 0 {
        Boot::Start
    } else {
        boot_step_spec(boot_run(oks.drop_last()), oks.last())
    }
}

/// `boot_next`'s state, as a spec function.
pub open spec fn boot_step_spec(state: Boot, ok: bool) -> Boot {
    match state {
        Boot::Start => Boot::BindingUdp,
        Boot::BindingUdp => if ok { Boot::ListeningTcp } else { Boot::Stopped },
        Boot::ListeningTcp => if ok { Boot::AwaitingAddress } else { Boot::Stopped },
        Boot::AwaitingAddress => if ok { Boot::Running } else { Boot::AwaitingAddress },
        Boot::Running => Boot::Running,
        Boot::Stopped => Boot::Stopped,
    }
}

/// The tasks start only after UDP was bound, TCP listened and an address
/// was found, in that order: any run that reaches `Running` has the
/// outcomes start, UDP bound, TCP listening, some failed looks for an
/// address, then one that found it.
pub proof fn law_tasks_start_only_when_network_is_up(oks: Seq<bool>)
    requires
        boot_run(oks) == Boot::Running,
    ensures
        oks.len() >= 4,
        oks[1],
        oks[2],
        exists|k: int| 3 <= k < oks.len() && oks[k] && forall|j: int| 3 <= j < k ==> !oks[j],
    decreases oks.len(),
{
    let prev = oks.drop_last();
    let s = boot_run(prev);
    if s == Boot::Running {
        law_tasks_start_only_when_network_is_up(prev);
        let k = choose|k: int| 3 <= k < prev.len() && prev[k] && forall|j: int| 3 <= j < k ==> !prev[j];
        assert(oks[k] == prev[k]);
        assert forall|j: int| 3 <= j < k implies !oks[j] by {
            assert(oks[j] == prev[j]);
        }
    } else {
        assert(s == Boot::AwaitingAddress && oks.last());
        lemma_awaiting(prev);
        let k = prev.len() as int;
        assert(oks[k] == oks.last());
        assert forall|j: int| 3 <= j < k implies !oks[j] by {
            assert(oks[j] == prev[j]);
        }
        assert(oks[1] == prev[1] && oks[2] == prev[2]);
    }
}

/// A run still awaiting an address bound UDP, listened on TCP, and found
/// no address since.
proof fn lemma_awaiting(oks: Seq<bool>)
    requires
        boot_run(oks) == Boot::AwaitingAddress,
    ensures
        oks.len() >= 3,
        oks[1],
        oks[2],
        forall|j: int| 3 <= j < oks.len() ==> !oks[j],
    decreases oks.len(),
{
    let prev = oks.drop_last();
    let s = boot_run(prev);
    if s == Boot::AwaitingAddress {
        lemma_awaiting(prev);
        assert(!oks.last());
        assert forall|j: int| 3 <= j < oks.len() implies !oks[j] by {
            if j < prev.len() {
                assert(oks[j] == prev[j]);
            }
        }
        assert(oks[1] == prev[1] && oks[2] == prev[2]);
    } else {
        assert(s == Boot::ListeningTcp && oks.last());
        lemma_listening(prev);
        assert(oks[1] == prev[1]);
    }
}

proof fn lemma_listening(oks: Seq<bool>)
    requires
        boot_run(oks) == Boot::ListeningTcp,
    ensures
        oks.len() == 2,
        oks[1],
    decreases oks.len(),
{
    let prev = oks.drop_last();
    assert(boot_run(prev) == Boot::BindingUdp && oks.last());
    lemma_binding(prev);
    assert(oks[1] == oks.last());
}

proof fn lemma_binding(oks: Seq<bool>)
    requires
        boot_run(oks) == Boot::BindingUdp,
    ensures
        oks.len() == 1,
    decreases oks.len(),
{
    let prev = oks.drop_last();
    assert(boot_run(prev) == Boot::Start);
    if prev.len() > 0 {
        lemma_never_back_to_start(prev);
    }
}

proof fn lemma_never_back_to_start(oks: Seq<bool>)
    requires
        oks.len() > 0,
    ensures
        boot_run(oks) != Boot::Start,
{
}

} // verus!
