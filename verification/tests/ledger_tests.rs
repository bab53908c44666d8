use derusting::kinds::{is_recent, min_address, AddressBook, LedgerState, ADDRESS_BOOK_ENTRIES};
use derusting::tasks::messages::{Heartbeat, JobSet, Ledger, Message, NewJob, Payload, LEDGER_JOBS};
use derusting::tasks::tcp::append_to_ledger;
use derusting::marlin::Error as MarlinError;
use derusting::tasks::udp::{
    address_book_lifetime_check, job_accepted, next_owner, print_started, take_turn, udp_receiver,
    TurnStep,
    LedgerManager, Received, Round, SeenIds, Turn, HISTORY,
};

fn addr(a: u8, b: u8, c: u8, d: u8) -> u32 {
    u32::from_be_bytes([a, b, c, d])
}

fn ledger(owner: u32, jobs: &[u128]) -> Ledger {
    let mut set = JobSet::new();
    for j in jobs {
        let _ = set.insert(*j);
    }
    Ledger { owner, jobs: set }
}

#[test]
fn address_book_insert_replaces_and_fills() {
    let mut book = AddressBook::new();
    assert!(book.is_empty());
    assert_eq!(book.insert(addr(10, 0, 0, 2), 5), Ok(None));
    assert_eq!(book.insert(addr(10, 0, 0, 2), 9), Ok(Some(5)));
    assert_eq!(book.len(), 1);
    for i in 1..ADDRESS_BOOK_ENTRIES as u32 {
        assert_eq!(book.insert(addr(10, 0, 1, i as u8), 1), Ok(None));
    }
    assert_eq!(book.len(), ADDRESS_BOOK_ENTRIES);
    assert_eq!(book.insert(addr(10, 0, 9, 9), 1), Err((addr(10, 0, 9, 9), 1)));
    assert_eq!(book.keys()[0], addr(10, 0, 0, 2));
    assert_eq!(book.entries()[0], (addr(10, 0, 0, 2), 9));
}

#[test]
fn lifetime_check_drops_silent_machines() {
    let mut book = AddressBook::new();
    let _ = book.insert(addr(10, 0, 0, 2), 0);
    let _ = book.insert(addr(10, 0, 0, 3), 10_000);
    assert!(is_recent(29_999, 10_000));
    assert!(!is_recent(30_000, 10_000));
    address_book_lifetime_check(&mut book, 25_000);
    assert_eq!(book.keys(), vec![addr(10, 0, 0, 3)]);
}

#[test]
fn job_set_is_bounded_and_unique() {
    let mut set = JobSet::new();
    assert_eq!(set.insert(1), Ok(true));
    assert_eq!(set.insert(1), Ok(false));
    for j in 2..=LEDGER_JOBS as u128 {
        assert_eq!(set.insert(j), Ok(true));
    }
    assert_eq!(set.insert(100), Err(100));
    assert!(set.remove(1));
    assert!(!set.remove(1));
    assert_eq!(set.to_vec().len(), LEDGER_JOBS - 1);
    assert_eq!(set.to_vec()[0], LEDGER_JOBS as u128);
}

#[test]
fn message_repeats() {
    assert_eq!(Payload::Heartbeat(Heartbeat { alive: true }).repeats(), 1);
    assert_eq!(Payload::NewJob(NewJob { guid: 1 }).repeats(), 5);
    assert_eq!(Payload::Ledger(ledger(1, &[])).repeats(), 5);
    assert_eq!(Payload::Log("x".to_string()).repeats(), 2);
}

#[test]
fn duplicate_messages_are_dropped() {
    let mut seen = SeenIds::new();
    let mut book = AddressBook::new();
    let mut jobs: Option<LedgerState> = None;
    let msg = Message { idempotency: 77, payload: Payload::Heartbeat(Heartbeat { alive: true }) };
    let r = udp_receiver(&mut seen, &mut book, &mut jobs, addr(10, 0, 0, 5), 100, msg);
    assert!(matches!(r, Received::Processed { book_full: false }));
    assert_eq!(book.keys(), vec![addr(10, 0, 0, 5)]);
    let again = Message { idempotency: 77, payload: Payload::Heartbeat(Heartbeat { alive: true }) };
    let r = udp_receiver(&mut seen, &mut book, &mut jobs, addr(10, 0, 0, 6), 200, again);
    assert!(matches!(r, Received::Duplicate));
    assert_eq!(book.keys(), vec![addr(10, 0, 0, 5)]);
}

#[test]
fn seen_ids_forget_the_oldest() {
    let mut seen = SeenIds::new();
    for id in 0..HISTORY as u128 + 1 {
        seen.write(id);
    }
    assert!(!seen.contains(0));
    assert!(seen.contains(1));
    assert!(seen.contains(HISTORY as u128));
}

#[test]
fn received_ledger_and_new_jobs() {
    let mut seen = SeenIds::new();
    let mut book = AddressBook::new();
    let mut jobs: Option<LedgerState> = None;
    let nj = Message { idempotency: 1, payload: Payload::NewJob(NewJob { guid: 9 }) };
    let _ = udp_receiver(&mut seen, &mut book, &mut jobs, addr(10, 0, 0, 5), 10, nj);
    assert!(jobs.is_none());
    let l = Message { idempotency: 2, payload: Payload::Ledger(ledger(addr(10, 0, 0, 5), &[3])) };
    let _ = udp_receiver(&mut seen, &mut book, &mut jobs, addr(10, 0, 0, 5), 20, l);
    let st = jobs.as_ref().unwrap();
    assert_eq!(st.received, 20);
    assert_eq!(st.ledger.owner, addr(10, 0, 0, 5));
    let nj = Message { idempotency: 3, payload: Payload::NewJob(NewJob { guid: 9 }) };
    let _ = udp_receiver(&mut seen, &mut book, &mut jobs, addr(10, 0, 0, 6), 30, nj);
    let st = jobs.as_ref().unwrap();
    assert_eq!(st.ledger.jobs.to_vec(), vec![3, 9]);
    assert_eq!(st.received, 20);
}

#[test]
fn ledger_passes_to_next_higher_octet() {
    let me = addr(10, 0, 0, 5);
    let keys = vec![addr(10, 0, 0, 9), addr(10, 0, 0, 7), addr(10, 0, 0, 2)];
    assert_eq!(next_owner(me, &keys), addr(10, 0, 0, 7));
    let keys = vec![addr(10, 0, 0, 3), addr(10, 0, 0, 2)];
    assert_eq!(next_owner(me, &keys), addr(10, 0, 0, 2));
    assert_eq!(min_address(&keys), Some(addr(10, 0, 0, 2)));
    assert_eq!(min_address(&vec![]), None);
}

#[test]
fn ledger_manager_rounds() {
    let me = addr(10, 0, 0, 5);
    let mut mgr = LedgerManager::new();
    let mut jobs: Option<LedgerState> = None;
    let book = AddressBook::new();
    let r = mgr.begin_round(&mut jobs, &book, me, 1_000);
    match r {
        Round::Broadcast(l) => assert_eq!(l.owner, me),
        _ => panic!("a new ledger is broadcast"),
    }
    assert!(matches!(mgr.begin_round(&mut jobs, &book, me, 2_000), Round::Wait));
    assert!(mgr.observed_ownership);
    assert!(matches!(mgr.begin_round(&mut jobs, &book, me, 3_000), Round::Act));
}

#[test]
fn stale_ledger_taken_over_by_lowest_address() {
    let me = addr(10, 0, 0, 2);
    let mut mgr = LedgerManager::new();
    let mut jobs = Some(LedgerState::new(ledger(addr(10, 0, 0, 9), &[]), 0));
    let mut book = AddressBook::new();
    let _ = book.insert(addr(10, 0, 0, 7), 0);
    let _ = book.insert(me, 0);
    let _ = mgr.begin_round(&mut jobs, &book, me, 40_000);
    assert_eq!(jobs.as_ref().unwrap().ledger.owner, addr(10, 0, 0, 9));
    let _ = mgr.begin_round(&mut jobs, &book, me, 45_001);
    assert_eq!(jobs.as_ref().unwrap().ledger.owner, me);
    let mut higher = Some(LedgerState::new(ledger(addr(10, 0, 0, 9), &[]), 0));
    let _ = mgr.begin_round(&mut higher, &book, addr(10, 0, 0, 7), 45_001);
    assert_eq!(higher.as_ref().unwrap().ledger.owner, addr(10, 0, 0, 9));
    let empty = AddressBook::new();
    let mut alone = Some(LedgerState::new(ledger(addr(10, 0, 0, 9), &[]), 0));
    let _ = mgr.begin_round(&mut alone, &empty, addr(10, 0, 0, 7), 45_001);
    assert_eq!(alone.as_ref().unwrap().ledger.owner, addr(10, 0, 0, 7));
}

#[test]
fn passing_the_ledger_on() {
    let me = addr(10, 0, 0, 5);
    let mut mgr = LedgerManager { observed_ownership: true };
    let mut st = LedgerState::new(ledger(me, &[1]), 0);
    let mut book = AddressBook::new();
    let l = mgr.pass_ledger(&mut st, &book, me);
    assert_eq!(l.owner, me);
    let _ = book.insert(addr(10, 0, 0, 8), 0);
    let l = mgr.pass_ledger(&mut st, &book, me);
    assert_eq!(l.owner, addr(10, 0, 0, 8));
    assert_eq!(st.ledger.owner, addr(10, 0, 0, 8));
    assert!(!mgr.observed_ownership);
}

#[test]
fn choosing_and_accepting_a_job() {
    let mut st = LedgerState::new(ledger(1, &[0x67e5_5044_10b1_426f_9247_bb68_0e5f_e0c8, 5]), 0);
    let text = job_accepted(&mut st, 0x67e5_5044_10b1_426f_9247_bb68_0e5f_e0c8);
    assert_eq!(text, "Job Accepted: 67e55044-10b1-426f-9247-bb680e5fe0c8");
    assert_eq!(st.ledger.jobs.to_vec(), vec![5]);
}

#[test]
fn new_upload_joins_owned_ledger() {
    let me = addr(10, 0, 0, 5);
    let mut jobs = Some(LedgerState::new(ledger(me, &[]), 0));
    assert!(!append_to_ledger(7, false, &mut jobs, Some(me)));
    assert_eq!(jobs.as_ref().unwrap().ledger.jobs.to_vec(), vec![7]);
    let mut other = Some(LedgerState::new(ledger(addr(10, 0, 0, 9), &[]), 0));
    assert!(append_to_ledger(7, false, &mut other, Some(me)));
    assert!(!append_to_ledger(7, true, &mut other, Some(me)));
    assert!(other.as_ref().unwrap().ledger.jobs.to_vec().is_empty());
    let mut none: Option<LedgerState> = None;
    assert!(append_to_ledger(7, false, &mut none, None));
}

/// Runs the owner's turn, answering the file checks with `opens` and the
/// print with `start`; returns the turn and the calls made.
fn run_turn(
    st: &mut LedgerState,
    ready: bool,
    idle: bool,
    opens: impl Fn(u128) -> bool,
    start: impl Fn(&[u8], bool) -> Result<(), MarlinError>,
) -> (Turn, Vec<String>) {
    let mut calls = Vec::new();
    let mut opened = Vec::new();
    loop {
        match take_turn(st, ready, idle, &opened) {
            TurnStep::Check(g) => {
                calls.push(format!("check {g}"));
                opened.push(opens(g));
            }
            TurnStep::Print { guid, path, dry } => {
                calls.push(format!("print {} {}", String::from_utf8_lossy(&path), dry));
                let started = start(&path, dry);
                return (print_started(st, guid, started), calls);
            }
            TurnStep::Done(t) => return (t, calls),
        }
    }
}

#[test]
fn owner_turn_prints_first_openable_job() {
    let mut st = LedgerState::new(ledger(1, &[10, 20, 30]), 0);
    let (turn, calls) = run_turn(&mut st, true, true, |g: u128| g >= 20, |_: &[u8], _: bool| Ok(()));
    match turn {
        Turn::Printing { guid, log } => {
            assert_eq!(guid, 20);
            assert_eq!(log, "Job Accepted: 00000000-0000-0000-0000-000000000014");
        }
        _ => panic!("the job is printed"),
    }
    assert_eq!(
        calls,
        vec![
            "check 10".to_string(),
            "check 20".to_string(),
            "print /usb/00000000-0000-0000-0000-000000000014.gcode true".to_string()
        ]
    );
    assert_eq!(st.ledger.jobs.to_vec(), vec![10, 30]);
}

#[test]
fn owner_turn_needs_a_ready_idle_printer() {
    let mut st = LedgerState::new(ledger(1, &[10]), 0);
    let (t, calls) = run_turn(&mut st, false, true, |_: u128| true, |_: &[u8], _: bool| Ok(()));
    assert!(matches!(t, Turn::NotReady));
    assert!(calls.is_empty());
    let (t, calls) = run_turn(&mut st, true, false, |_: u128| true, |_: &[u8], _: bool| Ok(()));
    assert!(matches!(t, Turn::NotReady));
    assert!(calls.is_empty());
    let (t, _) = run_turn(&mut st, true, true, |_: u128| false, |_: &[u8], _: bool| Ok(()));
    assert!(matches!(t, Turn::NothingPrintable));
    let (failed, _) = run_turn(&mut st, true, true, |_: u128| true, |_: &[u8], _: bool| Err(MarlinError::Busy));
    assert!(matches!(failed, Turn::PrintFailed { guid: 10, error: MarlinError::Busy }));
    assert_eq!(st.ledger.jobs.to_vec(), vec![10]);
}

#[test]
fn every_machine_gets_the_ledger_in_turn() {
    let ring = vec![addr(10, 0, 0, 40), addr(10, 0, 0, 3), addr(10, 0, 0, 17), addr(10, 0, 0, 9)];
    let mut holder = ring[2];
    let mut visited = vec![holder];
    for _ in 1..ring.len() {
        let others: Vec<u32> = ring.iter().copied().filter(|a| *a != holder).collect();
        holder = next_owner(holder, &others);
        visited.push(holder);
    }
    assert_eq!(
        visited,
        vec![addr(10, 0, 0, 17), addr(10, 0, 0, 40), addr(10, 0, 0, 3), addr(10, 0, 0, 9)]
    );
}
