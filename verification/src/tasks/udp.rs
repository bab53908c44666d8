//! The decisions of the UDP tasks: handling a received message, ageing the
//! address book, and managing the token-ring ledger that is passed between
//! the machines.
use vstd::prelude::*;

use crate::ids::hyphenated;
use crate::kinds::{
    insert_result, inserted, is_min_of, last_octet, min_address, AddressBook, LedgerState,
};
use crate::tasks::messages::{
    job_inserted, job_removed, JobSet, Ledger, Message, Payload,
};

verus! {

// ---------------------------------------------------------------------------
// Recently seen messages
// ---------------------------------------------------------------------------

/// Seconds between heartbeats.
pub const HEARTBEAT_SECS: u64 = 2;

/// Seconds between clean-ups of the address book.
pub const BOOK_CHECK_SECS: u64 = 10;

/// Seconds the ledger manager gives the address book to fill before its
/// first round.
pub const LEDGER_SETTLE_SECS: u64 = 20;

/// Seconds between rounds of the ledger manager.
pub const LEDGER_ROUND_SECS: u64 = 5;

/// How many recent message identifiers are remembered.
pub const HISTORY: usize = 24;

/// The identifiers of the most recently processed messages, in a
/// `heapless::HistoryBuf` that overwrites the oldest.
#[verifier::external_body]
pub struct SeenIds {
    buf: heapless::HistoryBuf<u128, 24>,
}

/// The remembered identifiers, oldest first.
pub uninterp spec fn seen_entries(seen: SeenIds) -> Seq<u128>;

/// The identifiers after `HistoryBuf::write(id)`: appended, dropping the
/// oldest once all places are taken.
pub open spec fn seen_written(e: Seq<u128>, id: u128) -> Seq<u128> {
    if e.len() < HISTORY {
        e.push(id)
    } else {
        e.drop_first().push(id)
    }
}

/// A message just processed is remembered: delivered again, it is dropped
/// as a duplicate. The history never grows past `HISTORY` identifiers.
pub proof fn law_redelivered_message_is_dropped(e: Seq<u128>, id: u128)
    requires
        e.len() <= HISTORY,
    ensures
        seen_written(e, id).contains(id),
        seen_written(e, id).len() <= HISTORY,
{
    let f = seen_written(e, id);
    assert(f[f.len() - 1] == id);
}

/// Calls `heapless::HistoryBuf::new`: nothing is remembered yet.
#[verifier::external_body]
fn history_new() -> (r: SeenIds)
    ensures
        seen_entries(r) == Seq::<u128>::empty(),
{
    SeenIds { buf: heapless::HistoryBuf::new() }
}

/// Calls `heapless::HistoryBuf::write`. From its source: the value takes
/// the place of the oldest once the buffer is full.
#[verifier::external_body]
fn history_write(seen: &mut SeenIds, id: u128)
    requires
        seen_entries(*old(seen)).len() <= HISTORY,
    ensures
        seen_entries(*final(seen)) == seen_written(seen_entries(*old(seen)), id),
{
    seen.buf.write(id)
}

/// Calls `contains` on the `heapless::HistoryBuf`'s slice of values.
#[verifier::external_body]
fn history_contains(seen: &SeenIds, id: u128) -> (r: bool)
    ensures
        r == seen_entries(*seen).contains(id),
{
    seen.buf.contains(&id)
}

/// Calls `heapless::HistoryBuf::len`: the number of values held, at most
/// the capacity.
#[verifier::external_body]
fn history_len(seen: &SeenIds) -> (r: usize)
    ensures
        r == seen_entries(*seen).len(),
        r <= HISTORY,
{
    seen.buf.len()
}

impl View for SeenIds {
    type V = Seq<u128>;

    open spec fn view(&self) -> Seq<u128> {
        seen_entries(*self)
    }
}

impl SeenIds {
    pub fn new() -> (r: SeenIds)
        ensures
            r@ == Seq::<u128>::empty(),
    {
        history_new()
    }

    pub fn contains(&self, id: u128) -> (r: bool)
        ensures
            r == self@.contains(id),
    {
        history_contains(self, id)
    }

    /// Remembers `id`, forgetting the oldest when full.
    pub fn write(&mut self, id: u128)
        ensures
            final(self)@ == seen_written(old(self)@, id),
    {
        let _ = history_len(self);
        history_write(self, id)
    }
}

// ---------------------------------------------------------------------------
// Receiving a message
// ---------------------------------------------------------------------------

/// What was done with a received message.
pub enum Received {
    /// Its identifier was seen recently: it was dropped.
    Duplicate,
    /// It was processed; `book_full` says whether the address book had no
    /// room for its sender.
    Processed { book_full: bool },
}

/// Handles a message `msg` received from `addr` at `now`: a message whose
/// identifier was seen recently is dropped; otherwise the identifier is
/// remembered, the sender is recorded in the address book, a new job is
/// added to the ledger held (if one is held), and a ledger replaces the one
/// held.
pub fn udp_receiver(
    seen: &mut SeenIds,
    book: &mut AddressBook,
    jobs: &mut Option<LedgerState>,
    addr: u32,
    now: u64,
    msg: Message,
) -> (r: Received)
    ensures
        old(seen)@.contains(msg.idempotency) ==> {
            &&& r is Duplicate
            &&& final(seen)@ == old(seen)@
            &&& final(book)@ == old(book)@
            &&& *final(jobs) == *old(jobs)
        },
        !old(seen)@.contains(msg.idempotency) ==> {
            &&& r == Received::Processed {
                book_full: insert_result(old(book)@, addr, now) is Err,
            }
            &&& final(seen)@ == seen_written(old(seen)@, msg.idempotency)
            &&& final(book)@ == inserted(old(book)@, addr, now)
            &&& match msg.payload {
                Payload::NewJob(job) => match *old(jobs) {
                    None => *final(jobs) is None,
                    Some(st) => *final(jobs) matches Some(st2) && st2.ledger.owner
                        == st.ledger.owner && st2.received == st.received && st2.ledger.jobs@
                        == job_inserted(st.ledger.jobs@, job.guid),
                },
                Payload::Ledger(l) => *final(jobs) matches Some(st2) && st2.ledger == l
                    && st2.received == now,
                _ => *final(jobs) == *old(jobs),
            }
        },
{
    if seen.contains(msg.idempotency) {
        return Received::Duplicate;
    }
    seen.write(msg.idempotency);
    let book_full = match book.insert(addr, now) {
        Ok(_) => false,
        Err(_) => true,
    };
    match msg.payload {
        Payload::NewJob(job) => {
            match jobs {
                Some(st) => {
                    let _ = st.ledger.jobs.insert(job.guid);
                },
                None => {},
            }
        },
        Payload::Ledger(l) => {
            *jobs = Some(LedgerState::new(l, now));
        },
        _ => {},
    }
    Received::Processed { book_full }
}

/// A sweep of the address book at `now` keeps exactly the machines heard
/// from less than 20 seconds before: it adds no entry and changes no time,
/// and an entry stays exactly when it is recent.
pub proof fn law_sweep_keeps_recent_entries(entries: Seq<(u32, u64)>, now: u64, kept: Seq<(u32, u64)>)
    requires
        kept == entries.filter(|q: (u32, u64)| crate::kinds::is_recent_spec(now, q.1)),
    ensures
        forall|p: (u32, u64)|
            #[trigger] kept.contains(p) <==> entries.contains(p) && crate::kinds::is_recent_spec(
                now,
                p.1,
            ),
{
    broadcast use vstd::seq_lib::group_filter_ensures;

    let pred = |q: (u32, u64)| crate::kinds::is_recent_spec(now, q.1);
    assert(kept == entries.filter(pred));
    assert forall|p: (u32, u64)| #[trigger] kept.contains(p) <==> entries.contains(p)
        && crate::kinds::is_recent_spec(now, p.1) by {
        if kept.contains(p) {
            let i = choose|i: int| 0 <= i < kept.len() && kept[i] == p;
            assert(pred(entries.filter(pred)[i]));
            entries.lemma_filter_contains_rev(pred, p);
        }
        if entries.contains(p) && crate::kinds::is_recent_spec(now, p.1) {
            let i = choose|i: int| 0 <= i < entries.len() && entries[i] == p;
            assert(pred(entries[i]));
            assert(entries.filter(pred).contains(entries[i]));
        }
    }
}

/// Periodically drops the addresses not heard from for 20 seconds.
pub fn address_book_lifetime_check(book: &mut AddressBook, now: u64)
    requires
        forall|i: int| 0 <= i < old(book)@.len() ==> #[trigger] old(book)@[i].1 <= now,
    ensures
        final(book)@ == old(book)@.filter(|p: (u32, u64)| crate::kinds::is_recent_spec(now, p.1)),
{
    book.retain_recent(now)
}



// ---------------------------------------------------------------------------
// Managing the ledger
// ---------------------------------------------------------------------------

/// How long the ledger may go unheard before its owner is presumed gone:
/// 45 seconds, in ticks.
pub const STALE_AFTER: u64 = 45000;

/// `u8::saturating_sub` on last octets.
pub open spec fn octet_gap(addr: u32, my: u32) -> int {
    if last_octet(addr) > last_octet(my) {
        last_octet(addr) - last_octet(my)
    } else {
        0
    }
}

/// The closest gap above this machine's last octet among `keys`, and the
/// first address with it, scanning in order from a gap of 255 and the
/// broadcast address; only gaps strictly between 0 and the best so far
/// count.
pub open spec fn pass_scan(my: u32, keys: Seq<u32>) -> (int, u32)
    decreases keys.len(),
{
    if keys.len() == 0 {
        (255, 0xffff_ffffu32)
    } else {
        let prev = pass_scan(my, keys.drop_last());
        let k = keys.last();
        let gap = octet_gap(k, my);
        if gap > 0 && gap < prev.0 {
            (gap, k)
        } else {
            prev
        }
    }
}

/// The smallest address among `keys`.
pub open spec fn min_of(keys: Seq<u32>) -> u32 {
    choose|m: u32| is_min_of(keys, m)
}

/// Who the ledger is passed to: the machine with the next higher last
/// octet (the first of them in the book's order), or, when there is none,
/// the lowest address.
pub open spec fn next_owner_spec(my: u32, keys: Seq<u32>) -> u32 {
    let (best, addr) = pass_scan(my, keys);
    if best > 0 && best < 255 {
        addr
    } else {
        min_of(keys)
    }
}

proof fn lemma_pass_scan(my: u32, keys: Seq<u32>)
    ensures
        0 < pass_scan(my, keys).0 <= 255,
        pass_scan(my, keys).0 < 255 ==> keys.contains(pass_scan(my, keys).1),
    decreases keys.len(),
{
    if keys.len() > 0 {
        lemma_pass_scan(my, keys.drop_last());
        let prev = pass_scan(my, keys.drop_last());
        if prev.0 < 255 {
            let j = choose|j: int| 0 <= j < keys.drop_last().len() && keys.drop_last()[j] == prev.1;
            assert(keys[j] == prev.1);
        }
        assert(keys[keys.len() - 1] == keys.last());
    }
}

/// The scan keeps a closest gap above this machine's last octet.
proof fn lemma_pass_scan_closest(my: u32, keys: Seq<u32>)
    ensures
        pass_scan(my, keys).0 < 255 ==> octet_gap(pass_scan(my, keys).1, my) == pass_scan(my, keys).0,
        forall|i: int|
            0 <= i < keys.len() && 0 < octet_gap(keys[i], my) ==> pass_scan(my, keys).0 <= octet_gap(
                #[trigger] keys[i],
                my,
            ),
    decreases keys.len(),
{
    if keys.len() > 0 {
        let t = keys.drop_last();
        lemma_pass_scan_closest(my, t);
        lemma_pass_scan(my, t);
        assert forall|i: int|
            0 <= i < keys.len() && 0 < octet_gap(keys[i], my) implies pass_scan(my, keys).0
            <= octet_gap(#[trigger] keys[i], my) by {
            if i < keys.len() - 1 {
                assert(keys[i] == t[i]);
            } else {
                assert(keys[i] == keys.last());
            }
        }
    }
}

proof fn lemma_min_unique(keys: Seq<u32>, m: u32)
    requires
        is_min_of(keys, m),
    ensures
        min_of(keys) == m,
{
    let c = min_of(keys);
    assert(is_min_of(keys, c));
    let i = choose|i: int| 0 <= i < keys.len() && keys[i] == m;
    let j = choose|j: int| 0 <= j < keys.len() && keys[j] == c;
    assert(c <= keys[i]);
    assert(m <= keys[j]);
}

/// Passing the ledger on always hands it to a machine in the address book.
pub proof fn law_ledger_passes_to_known_machine(my: u32, keys: Seq<u32>)
    requires
        keys.len() > 0,
    ensures
        keys.contains(next_owner_spec(my, keys)),
{
    lemma_pass_scan(my, keys);
    let (best, addr) = pass_scan(my, keys);
    if !(best > 0 && best < 255) {
        lemma_min_exists(keys);
    }
}

/// Passing the ledger on never skips a machine: it goes to a machine
/// whose last octet is the closest above this machine's, or, when no
/// machine's last octet is above, to the lowest address.
pub proof fn law_ledger_goes_round_the_ring(my: u32, keys: Seq<u32>)
    requires
        keys.len() > 0,
        forall|i: int| 0 <= i < keys.len() ==> octet_gap(#[trigger] keys[i], my) < 255,
    ensures
        (exists|i: int| 0 <= i < keys.len() && octet_gap(#[trigger] keys[i], my) > 0) ==> {
            &&& octet_gap(next_owner_spec(my, keys), my) > 0
            &&& forall|i: int|
                0 <= i < keys.len() && octet_gap(keys[i], my) > 0 ==> octet_gap(
                    next_owner_spec(my, keys),
                    my,
                ) <= octet_gap(#[trigger] keys[i], my)
        },
        !(exists|i: int| 0 <= i < keys.len() && octet_gap(#[trigger] keys[i], my) > 0)
            ==> is_min_of(keys, next_owner_spec(my, keys)),
{
    lemma_pass_scan(my, keys);
    lemma_pass_scan_closest(my, keys);
    let (best, addr) = pass_scan(my, keys);
    if exists|i: int| 0 <= i < keys.len() && octet_gap(#[trigger] keys[i], my) > 0 {
        let i = choose|i: int| 0 <= i < keys.len() && octet_gap(#[trigger] keys[i], my) > 0;
        assert(best <= octet_gap(keys[i], my));
    } else {
        lemma_min_exists(keys);
        if best < 255 {
            let j = choose|j: int| 0 <= j < keys.len() && keys[j] == addr;
            assert(octet_gap(keys[j], my) == best);
        }
    }
}

// ---------------------------------------------------------------------------
// The ring
// ---------------------------------------------------------------------------

/// Machines on one subnet of 256 addresses, at least two.
pub open spec fn one_subnet(m: Set<u32>) -> bool {
    &&& m.finite()
    &&& m.len() >= 2
    &&& forall|a: u32, b: u32| m.contains(a) && m.contains(b) ==> a / 256 == b / 256
}

/// Each machine's address book lists exactly the other machines.
pub open spec fn books_list_others(m: Set<u32>, books: spec_fn(u32) -> Seq<u32>) -> bool {
    forall|a: u32| m.contains(a) ==> (#[trigger] books(a)).to_set() == m.remove(a)
}

/// The owner after `k` passes of the ledger from `a`.
pub open spec fn passes(books: spec_fn(u32) -> Seq<u32>, a: u32, k: nat) -> u32
    decreases k,
{
    if k == 0 {
        a
    } else {
        let prev = passes(books, a, (k - 1) as nat);
        next_owner_spec(prev, books(prev))
    }
}

/// The machines whose last octet is below `x`'s.
pub open spec fn below(m: Set<u32>, x: u32) -> Set<u32> {
    m.filter(|y: u32| last_octet(y) < last_octet(x))
}

/// The place of `x` in the ring: how many machines have a lower last octet.
pub open spec fn rank(m: Set<u32>, x: u32) -> nat {
    below(m, x).len()
}

proof fn lemma_same_subnet_order(a: u32, b: u32)
    requires
        a / 256 == b / 256,
    ensures
        (a < b) == (last_octet(a) < last_octet(b)),
        (a == b) == (last_octet(a) == last_octet(b)),
{
    vstd::arithmetic::div_mod::lemma_fundamental_div_mod(a as int, 256);
    vstd::arithmetic::div_mod::lemma_fundamental_div_mod(b as int, 256);
}

proof fn lemma_rank_bounds(m: Set<u32>, x: u32)
    requires
        one_subnet(m),
        m.contains(x),
    ensures
        rank(m, x) < m.len(),
        below(m, x).finite(),
{
    m.lemma_len_filter(|y: u32| last_octet(y) < last_octet(x));
    assert(below(m, x).subset_of(m.remove(x)));
    vstd::set_lib::lemma_len_subset(below(m, x), m.remove(x));
}

/// Different machines have different places in the ring.
proof fn lemma_rank_injective(m: Set<u32>, x: u32, y: u32)
    requires
        one_subnet(m),
        m.contains(x),
        m.contains(y),
        x != y,
    ensures
        rank(m, x) != rank(m, y),
{
    lemma_same_subnet_order(x, y);
    lemma_rank_bounds(m, x);
    lemma_rank_bounds(m, y);
    if last_octet(x) < last_octet(y) {
        assert(below(m, x).subset_of(below(m, y)));
        below(m, x).lemma_subset_not_in_lt(below(m, y), x);
    } else {
        assert(below(m, y).subset_of(below(m, x)));
        below(m, y).lemma_subset_not_in_lt(below(m, x), y);
    }
}

/// Within one subnet the ledger goes round the ring: from a machine whose
/// book lists other machines of its subnet, it goes to the machine with
/// the closest last octet above its own, or, when there is none, to the
/// lowest address. This holds for every gap, 255 included (from host
/// octet 0 to host octet 255); `law_ledger_goes_round_the_ring` states
/// the same for books that may span subnets, where a gap of 255 is not
/// counted.
pub proof fn law_ledger_goes_round_the_subnet(x: u32, book: Seq<u32>)
    requires
        book.len() > 0,
        forall|i: int| 0 <= i < book.len() ==> #[trigger] book[i] / 256 == x / 256,
        !book.contains(x),
    ensures
        book.contains(next_owner_spec(x, book)),
        (exists|i: int| 0 <= i < book.len() && octet_gap(#[trigger] book[i], x) > 0) ==> {
            &&& octet_gap(next_owner_spec(x, book), x) > 0
            &&& forall|i: int|
                0 <= i < book.len() && octet_gap(book[i], x) > 0 ==> octet_gap(
                    next_owner_spec(x, book),
                    x,
                ) <= octet_gap(#[trigger] book[i], x)
        },
        !(exists|i: int| 0 <= i < book.len() && octet_gap(#[trigger] book[i], x) > 0)
            ==> is_min_of(book, next_owner_spec(x, book)),
{
    lemma_pass_scan(x, book);
    lemma_pass_scan_closest(x, book);
    lemma_min_exists(book);
    let (best, addr) = pass_scan(x, book);
    if best < 255 {
        let j = choose|j: int| 0 <= j < book.len() && book[j] == addr;
        assert(octet_gap(book[j], x) == best);
    }
    if best == 255 && exists|i: int| 0 <= i < book.len() && octet_gap(#[trigger] book[i], x) > 0 {
        let i = choose|i: int| 0 <= i < book.len() && octet_gap(#[trigger] book[i], x) > 0;
        let k = book[i];
        assert(octet_gap(k, x) == 255);
        let mn = min_of(book);
        let j = choose|j: int| 0 <= j < book.len() && book[j] == mn;
        assert forall|q: int| 0 <= q < book.len() implies #[trigger] book[q] == k by {
            let y = book[q];
            assert(y / 256 == x / 256);
            lemma_same_subnet_order(x, y);
            lemma_same_subnet_order(k, y);
            if octet_gap(y, x) == 0 {
                assert(last_octet(y) <= last_octet(x));
                assert(y != x);
            }
        }
        assert(book[j] == k);
    }
}

/// One pass moves the ledger one place on round the ring.
proof fn lemma_pass_moves_one_place(m: Set<u32>, books: spec_fn(u32) -> Seq<u32>, x: u32)
    requires
        one_subnet(m),
        books_list_others(m, books),
        m.contains(x),
    ensures
        m.contains(next_owner_spec(x, books(x))),
        rank(m, next_owner_spec(x, books(x))) as int == (rank(m, x) + 1) as int % (m.len() as int),
{
    let book = books(x);
    let others = m.remove(x);
    assert(book.to_set() == others);
    assert(others.len() == m.len() - 1);
    if book.len() == 0 {
        assert(book.to_set() =~= Set::<u32>::empty());
        assert(others.len() == 0);
    }
    assert forall|i: int| 0 <= i < book.len() implies #[trigger] book[i] / 256 == x / 256 by {
        assert(book.to_set().contains(book[i]));
    }
    assert(!book.contains(x)) by {
        if book.contains(x) {
            assert(book.to_set().contains(x));
        }
    }
    law_ledger_goes_round_the_subnet(x, book);
    let next = next_owner_spec(x, book);
    assert(book.to_set().contains(next));
    assert(m.contains(next) && next != x);
    lemma_rank_bounds(m, x);
    lemma_rank_bounds(m, next);
    lemma_same_subnet_order(x, next);
    if exists|i: int| 0 <= i < book.len() && octet_gap(#[trigger] book[i], x) > 0 {
        assert forall|y: u32| #[trigger] below(m, next).contains(y) == below(m, x).insert(x).contains(
            y,
        ) by {
            if m.contains(y) && last_octet(y) < last_octet(next) && !(last_octet(y) < last_octet(
                x,
            )) && y != x {
                lemma_same_subnet_order(x, y);
                assert(others.contains(y));
                assert(book.to_set().contains(y));
                let i = choose|i: int| 0 <= i < book.len() && book[i] == y;
                assert(octet_gap(book[i], x) > 0);
            }
        }
        assert(below(m, next) =~= below(m, x).insert(x));
        assert(!below(m, x).contains(x));
        assert(rank(m, next) == rank(m, x) + 1);
        vstd::arithmetic::div_mod::lemma_small_mod((rank(m, x) + 1) as nat, m.len());
    } else {
        assert forall|y: u32| m.contains(y) && y != x implies last_octet(y) < last_octet(x) by {
            assert(others.contains(y));
            assert(book.to_set().contains(y));
            let i = choose|i: int| 0 <= i < book.len() && book[i] == y;
            assert(octet_gap(book[i], x) == 0);
            lemma_same_subnet_order(x, y);
        }
        assert(below(m, x) =~= others);
        assert forall|y: u32| !#[trigger] below(m, next).contains(y) by {
            if m.contains(y) && last_octet(y) < last_octet(next) {
                lemma_same_subnet_order(next, y);
                lemma_same_subnet_order(x, y);
                assert(book.to_set().contains(y));
                let i = choose|i: int| 0 <= i < book.len() && book[i] == y;
                assert(next <= book[i]);
            }
        }
        assert(below(m, next) =~= Set::<u32>::empty());
        assert(rank(m, x) + 1 == m.len());
        vstd::arithmetic::div_mod::lemma_mod_self_0(m.len() as int);
    }
}

proof fn lemma_passes_rank(m: Set<u32>, books: spec_fn(u32) -> Seq<u32>, a: u32, k: nat)
    requires
        one_subnet(m),
        books_list_others(m, books),
        m.contains(a),
    ensures
        m.contains(passes(books, a, k)),
        rank(m, passes(books, a, k)) as int == (rank(m, a) + k) as int % (m.len() as int),
    decreases k,
{
    lemma_rank_bounds(m, a);
    if k == 0 {
        vstd::arithmetic::div_mod::lemma_small_mod(rank(m, a), m.len());
    } else {
        lemma_passes_rank(m, books, a, (k - 1) as nat);
        let prev = passes(books, a, (k - 1) as nat);
        lemma_pass_moves_one_place(m, books, prev);
        let n = m.len() as int;
        vstd::arithmetic::div_mod::lemma_add_mod_noop(rank(m, a) + k - 1, 1, n);
        vstd::arithmetic::div_mod::lemma_small_mod(1, m.len());
        vstd::arithmetic::div_mod::lemma_mod_twice(rank(m, a) + k - 1, n);
    }
}

/// Every machine gets the ledger in turn: on machines in one subnet whose
/// address books list each other, passing the ledger on from any machine
/// reaches every machine within as many passes as there are machines.
pub proof fn law_every_machine_gets_the_ledger(
    m: Set<u32>,
    books: spec_fn(u32) -> Seq<u32>,
    a: u32,
    t: u32,
)
    requires
        one_subnet(m),
        books_list_others(m, books),
        m.contains(a),
        m.contains(t),
    ensures
        exists|k: nat| k < m.len() && passes(books, a, k) == t,
{
    let n = m.len() as int;
    lemma_rank_bounds(m, a);
    lemma_rank_bounds(m, t);
    let k = ((rank(m, t) + n - rank(m, a)) % n) as nat;
    lemma_passes_rank(m, books, a, k);
    vstd::arithmetic::div_mod::lemma_add_mod_noop(rank(m, a) as int, rank(m, t) + n - rank(m, a), n);
    vstd::arithmetic::div_mod::lemma_small_mod(rank(m, a), m.len());
    vstd::arithmetic::div_mod::lemma_mod_add_multiples_vanish(rank(m, t) as int, n);
    vstd::arithmetic::div_mod::lemma_small_mod(rank(m, t), m.len());
    let p = passes(books, a, k);
    if p != t {
        lemma_rank_injective(m, p, t);
    }
}

/// A stale ledger is taken over by this machine: it has not been heard
/// from for more than `STALE_AFTER` ticks, and this machine has the lowest
/// address in the book or the book is empty.
pub open spec fn takes_over(st: LedgerState, keys: Seq<u32>, my: u32, now: u64) -> bool {
    now - st.received > STALE_AFTER && (keys.len() == 0 || min_of(keys) == my)
}

/// Machines that share an address book never both take over a stale
/// ledger.
pub proof fn law_one_machine_takes_over(st: LedgerState, keys: Seq<u32>, a: u32, b: u32, now: u64)
    requires
        keys.len() > 0,
        a != b,
    ensures
        !(takes_over(st, keys, a, now) && takes_over(st, keys, b, now)),
{
}

/// A stale ledger goes to the machine with the lowest address in the book:
/// once the ledger has gone unheard for more than `STALE_AFTER` ticks, this
/// machine becomes its owner exactly when it is in the book and no address
/// in the book is lower (whatever the book's order), or the book is empty;
/// otherwise, and while the ledger is not stale, the owner stays.
pub proof fn law_stale_ledger_goes_to_lowest_address(st: LedgerState, keys: Seq<u32>, my: u32, now: u64)
    ensures
        now - st.received > STALE_AFTER && keys.len() > 0 ==> (takes_over(st, keys, my, now) <==> (
        keys.contains(my) && forall|i: int| 0 <= i < keys.len() ==> my <= #[trigger] keys[i])),
        now - st.received > STALE_AFTER && keys.len() == 0 ==> owner_after_staleness(st, keys, my, now)
            == my,
        now - st.received <= STALE_AFTER ==> owner_after_staleness(st, keys, my, now) == st.ledger.owner,
        now - st.received > STALE_AFTER && keys.len() > 0 ==> owner_after_staleness(st, keys, my, now)
            == if keys.contains(my) && forall|i: int| 0 <= i < keys.len() ==> my <= #[trigger] keys[i] {
            my
        } else {
            st.ledger.owner
        },
{
    if keys.len() > 0 {
        lemma_min_exists(keys);
        if keys.contains(my) && forall|i: int| 0 <= i < keys.len() ==> my <= #[trigger] keys[i] {
            lemma_min_unique(keys, my);
        }
    }
}

/// Who takes over a stale ledger does not depend on the order of the book:
/// two books with the same addresses give the same answer.
pub proof fn law_take_over_ignores_book_order(st: LedgerState, a: Seq<u32>, b: Seq<u32>, my: u32, now: u64)
    requires
        a.to_set() == b.to_set(),
    ensures
        takes_over(st, a, my, now) == takes_over(st, b, my, now),
{
    if now - st.received > STALE_AFTER {
        assert(a.len() == 0 <==> b.len() == 0) by {
            if a.len() > 0 {
                assert(a.to_set().contains(a[0]));
            }
            if b.len() > 0 {
                assert(b.to_set().contains(b[0]));
            }
        }
        if a.len() > 0 {
            law_stale_ledger_goes_to_lowest_address(st, a, my, now);
            law_stale_ledger_goes_to_lowest_address(st, b, my, now);
            assert((a.contains(my) && forall|i: int| 0 <= i < a.len() ==> my <= #[trigger] a[i]) == (
            b.contains(my) && forall|i: int| 0 <= i < b.len() ==> my <= #[trigger] b[i])) by {
                assert(a.contains(my) == b.contains(my)) by {
                    assert(a.to_set().contains(my) == a.contains(my));
                    assert(b.to_set().contains(my) == b.contains(my));
                }
                if forall|i: int| 0 <= i < a.len() ==> my <= #[trigger] a[i] {
                    assert forall|i: int| 0 <= i < b.len() implies my <= #[trigger] b[i] by {
                        assert(b.to_set().contains(b[i]));
                        assert(a.to_set().contains(b[i]));
                        let j = choose|j: int| 0 <= j < a.len() && a[j] == b[i];
                        assert(my <= a[j]);
                    }
                }
                if forall|i: int| 0 <= i < b.len() ==> my <= #[trigger] b[i] {
                    assert forall|i: int| 0 <= i < a.len() implies my <= #[trigger] a[i] by {
                        assert(a.to_set().contains(a[i]));
                        assert(b.to_set().contains(a[i]));
                        let j = choose|j: int| 0 <= j < b.len() && b[j] == a[i];
                        assert(my <= b[j]);
                    }
                }
            }
        }
    }
}

proof fn lemma_min_exists(keys: Seq<u32>)
    requires
        keys.len() > 0,
    ensures
        is_min_of(keys, min_of(keys)),
    decreases keys.len(),
{
    if keys.len() == 1 {
        assert(is_min_of(keys, keys[0]));
    } else {
        let t = keys.drop_last();
        lemma_min_exists(t);
        let m = min_of(t);
        let l = keys.last();
        if l < m {
            assert(keys[keys.len() - 1] == l);
            assert forall|i: int| 0 <= i < keys.len() implies l <= #[trigger] keys[i] by {
                if i < keys.len() - 1 {
                    assert(keys[i] == t[i]);
                }
            }
            assert(is_min_of(keys, l));
        } else {
            let j = choose|j: int| 0 <= j < t.len() && t[j] == m;
            assert(keys[j] == m);
            assert forall|i: int| 0 <= i < keys.len() implies m <= #[trigger] keys[i] by {
                if i < keys.len() - 1 {
                    assert(keys[i] == t[i]);
                }
            }
            assert(is_min_of(keys, m));
        }
    }
}

fn octet_gap_exec(addr: u32, my: u32) -> (r: u8)
    ensures
        r as int == octet_gap(addr, my),
{
    let a = (addr % 256) as u8;
    let m = (my % 256) as u8;
    a.saturating_sub(m)
}

/// Who the ledger is passed to from `my` when the book holds `keys`.
pub fn next_owner(my: u32, keys: &Vec<u32>) -> (r: u32)
    requires
        keys@.len() > 0,
    ensures
        r == next_owner_spec(my, keys@),
{
    let mut next_highest: u8 = 255;
    let mut next_addr: u32 = 0xffff_ffff;
    let mut i: usize = 0;
    while i < keys.len()
        invariant
            i <= keys@.len(),
            (next_highest as int, next_addr) == pass_scan(my, keys@.subrange(0, i as int)),
        decreases keys@.len() - i,
    {
        let k = keys[i];
        let gap = octet_gap_exec(k, my);
        proof {
            let s = keys@.subrange(0, i + 1);
            assert(s.drop_last() =~= keys@.subrange(0, i as int));
            assert(s.last() == k);
        }
        if gap > 0 && gap < next_highest {
            next_addr = k;
            next_highest = gap;
        }
        i = i + 1;
    }
    assert(keys@.subrange(0, keys@.len() as int) =~= keys@);
    if next_highest > 0 && next_highest < 255 {
        next_addr
    } else {
        let m = min_address(keys);
        match m {
            Some(m) => {
                proof {
                    lemma_min_unique(keys@, m);
                }
                m
            },
            None => next_addr,
        }
    }
}

/// The owner after the stale-ledger check at `now`: when the ledger has not
/// been heard from for more than `STALE_AFTER` ticks, this machine takes it
/// over if it has the lowest address in the book or the book is empty.
pub open spec fn owner_after_staleness(st: LedgerState, keys: Seq<u32>, my: u32, now: u64) -> u32 {
    if takes_over(st, keys, my, now) {
        my
    } else {
        st.ledger.owner
    }
}

/// What a round of ledger management asks for next.
pub enum Round {
    /// Broadcast this ledger and end the round.
    Broadcast(Ledger),
    /// Nothing more this round.
    Wait,
    /// This machine owns the ledger and has seen that for a round: it may
    /// take a job, then passes the ledger on.
    Act,
}

/// The ledger manager's own state across rounds.
pub struct LedgerManager {
    /// Ownership was observed in an earlier round.
    pub observed_ownership: bool,
}

impl LedgerManager {
    pub fn new() -> (r: LedgerManager)
        ensures
            !r.observed_ownership,
    {
        LedgerManager { observed_ownership: false }
    }

    /// The start of a round at `now`, for this machine at `my`: creates and
    /// broadcasts a ledger when none is held; otherwise takes over a stale
    /// ledger when this machine has the lowest address, and acts only when
    /// ownership was already observed in an earlier round (the first round
    /// of ownership just observes it).
    pub fn begin_round(
        &mut self,
        jobs: &mut Option<LedgerState>,
        book: &AddressBook,
        my: u32,
        now: u64,
    ) -> (r: Round)
        requires
            *old(jobs) matches Some(st) ==> st.received <= now,
        ensures
            *old(jobs) is None ==> {
                &&& *final(jobs) matches Some(st) && st.ledger.owner == my && st.ledger.jobs@
                    == Seq::<u128>::empty() && st.received == now
                &&& r matches Round::Broadcast(l) && l.owner == my && l.jobs@ == Seq::<
                    u128,
                >::empty()
                &&& final(self).observed_ownership == old(self).observed_ownership
            },
            *old(jobs) matches Some(st) ==> {
                let owner = owner_after_staleness(st, crate::kinds::keys_of(book@), my, now);
                &&& *final(jobs) matches Some(st2) && st2.ledger.owner == owner
                    && st2.ledger.jobs@ == st.ledger.jobs@ && st2.received == st.received
                &&& if owner == my && !old(self).observed_ownership {
                    r is Wait && final(self).observed_ownership
                } else if owner == my {
                    r is Act && final(self).observed_ownership
                } else {
                    r is Wait && final(self).observed_ownership
                        == old(self).observed_ownership
                }
            },
    {
        match jobs {
            None => {
                let ledger = Ledger { owner: my, jobs: JobSet::new() };
                let copy = ledger.duplicate();
                *jobs = Some(LedgerState::new(ledger, now));
                Round::Broadcast(copy)
            },
            Some(st) => {
                if now - st.received > STALE_AFTER {
                    let keys = book.keys();
                    match min_address(&keys) {
                        Some(m) => {
                            proof {
                                lemma_min_unique(keys@, m);
                            }
                            if m == my {
                                st.ledger.owner = my;
                            }
                        },
                        None => {
                            st.ledger.owner = my;
                        },
                    }
                }
                let owner = st.is_owner(Some(my));
                if owner && !self.observed_ownership {
                    self.observed_ownership = true;
                    Round::Wait
                } else if owner {
                    Round::Act
                } else {
                    Round::Wait
                }
            },
        }
    }

    /// Passes the ledger on at the end of a round in which this machine, at
    /// `my`, acted as owner: with nobody else in the book it keeps the
    /// ledger (and tells everyone); otherwise the ledger goes to the next
    /// owner and ownership must be observed afresh. The ledger to broadcast
    /// is returned.
    pub fn pass_ledger(&mut self, st: &mut LedgerState, book: &AddressBook, my: u32) -> (r:
        Ledger)
        ensures
            book@.len() == 0 ==> final(st).ledger.owner == old(st).ledger.owner
                && final(self).observed_ownership == old(self).observed_ownership,
            book@.len() > 0 ==> final(st).ledger.owner == next_owner_spec(
                my,
                crate::kinds::keys_of(book@),
            ) && !final(self).observed_ownership,
            final(st).ledger.jobs@ == old(st).ledger.jobs@,
            final(st).received == old(st).received,
            r.owner == final(st).ledger.owner,
            r.jobs@ == final(st).ledger.jobs@,
    {
        if book.is_empty() {
            return st.ledger.duplicate();
        }
        let keys = book.keys();
        st.ledger.owner = next_owner(my, &keys);
        let copy = st.ledger.duplicate();
        self.observed_ownership = false;
        copy
    }
}

/// The job `guid` was accepted for printing: it leaves the ledger, and the
/// log line announcing it is returned.
pub fn job_accepted(st: &mut LedgerState, guid: u128) -> (r: String)
    ensures
        final(st).ledger.jobs@ == job_removed(old(st).ledger.jobs@, guid),
        final(st).ledger.owner == old(st).ledger.owner,
        final(st).received == old(st).received,
        r@ == "Job Accepted: "@ + hyphenated(guid),
{
    let _ = st.ledger.jobs.remove(guid);
    let id = crate::ids::to_hyphenated_string(guid);
    let mut msg = <String as vstd::string::StringExecFns>::from_str("Job Accepted: ");
    <String as vstd::string::StringExecFns>::append(&mut msg, id.as_str());
    msg
}

/// Every job is printed as a dry run: the printer moves without extruding.
pub const DRY_RUN: bool = true;

/// What the owner of the ledger did with its turn.
pub enum Turn {
    /// The printer is not marked ready for jobs, or not idle.
    NotReady,
    /// No job's file could be opened.
    NothingPrintable,
    /// The print of `guid` would not start.
    PrintFailed { guid: u128, error: crate::marlin::Error },
    /// The print of `guid` started: the job left the ledger, and `log`
    /// announces it.
    Printing { guid: u128, log: String },
}

/// The next thing the owner does with its turn.
pub enum TurnStep {
    /// Check whether the file of this job opens.
    Check(u128),
    /// Print the file at `path` of the job `guid`, a dry run when `dry`.
    Print { guid: u128, path: Vec<u8>, dry: bool },
    /// The turn ends without a print.
    Done(Turn),
}

/// The first of `opened` that is `true`, within the first `n`.
pub open spec fn first_opened(opened: Seq<bool>, n: int) -> Option<int> {
    if exists|k: int| 0 <= k < n && k < opened.len() && opened[k] {
        Some(choose|k: int| 0 <= k < n && k < opened.len() && opened[k] && forall|j: int| 0 <= j < k ==> !opened[j])
    } else {
        None
    }
}

/// The owner's turn with the ledger: a printer marked ready and idle
/// checks the jobs' files in the ledger's order, and prints the first
/// whose file opens, as a dry run; `opened` are the answers to the checks
/// so far. A printer not ready and idle does nothing else.
pub open spec fn turn_step_spec(jobs: Seq<u128>, ready: bool, idle: bool, opened: Seq<bool>, r: TurnStep) -> bool {
    if !(ready && idle) {
        (r matches TurnStep::Done(t) && t is NotReady)
    } else {
        match first_opened(opened, jobs.len() as int) {
            Some(k) => (r matches TurnStep::Print { guid, path, dry } && guid == jobs[k] && path@
                == crate::fs::job_path(guid, false) && dry == DRY_RUN),
            None => if opened.len() < jobs.len() {
                r == TurnStep::Check(jobs[opened.len() as int])
            } else {
                (r matches TurnStep::Done(t) && t is NothingPrintable)
            },
        }
    }
}

/// Decides the next step of the owner's turn, given whether the printer
/// is ready and idle and the answers of the file checks so far.
pub fn take_turn(st: &LedgerState, ready: bool, idle: bool, opened: &Vec<bool>) -> (r: TurnStep)
    ensures
        turn_step_spec(st.ledger.jobs@, ready, idle, opened@, r),
{
    if !(ready && idle) {
        return TurnStep::Done(Turn::NotReady);
    }
    let jobs = st.ledger.jobs.to_vec();
    let mut k: usize = 0;
    while k < opened.len() && k < jobs.len()
        invariant
            jobs@ == st.ledger.jobs@,
            ready && idle,
            k <= opened@.len(),
            k <= jobs@.len(),
            forall|j: int| 0 <= j < k ==> !opened@[j],
        decreases opened@.len() - k,
    {
        if opened[k] {
            let guid = jobs[k];
            let path = crate::fs::make_path(guid, false).to_bytes();
            proof {
                let n = jobs@.len() as int;
                let ki = k as int;
                assert(0 <= ki < n && ki < opened@.len() && opened@[ki] && forall|j: int|
                    0 <= j < ki ==> !opened@[j]);
                let c = choose|c: int|
                    0 <= c < n && c < opened@.len() && opened@[c] && forall|j: int|
                        0 <= j < c ==> !opened@[j];
                if c < ki {
                    assert(!opened@[c]);
                }
                if c > ki {
                    assert(!opened@[ki]);
                }
                assert(c == ki);
                assert(first_opened(opened@, n) == Some(ki));
            }
            return TurnStep::Print { guid, path, dry: DRY_RUN };
        }
        k = k + 1;
    }
    proof {
        assert(first_opened(opened@, jobs@.len() as int) is None);
    }
    if opened.len() < jobs.len() {
        TurnStep::Check(jobs[opened.len()])
    } else {
        TurnStep::Done(Turn::NothingPrintable)
    }
}

/// The end of the turn once the print of `guid` was tried and gave
/// `started`: a print that started takes the job out of the ledger and
/// announces it; one that failed leaves the ledger as it was.
pub fn print_started(st: &mut LedgerState, guid: u128, started: Result<(), crate::marlin::Error>) -> (r: Turn)
    ensures
        started matches Err(e) ==> *final(st) == *old(st) && (r matches Turn::PrintFailed {
            guid: g,
            error,
        } && g == guid && error == e),
        started is Ok ==> {
            &&& (r matches Turn::Printing { guid: g, log } && g == guid && log@ == "Job Accepted: "@
                + hyphenated(guid))
            &&& final(st).ledger.jobs@ == job_removed(old(st).ledger.jobs@, guid)
            &&& final(st).ledger.owner == old(st).ledger.owner
            &&& final(st).received == old(st).received
        },
{
    match started {
        Err(error) => Turn::PrintFailed { guid, error },
        Ok(()) => {
            let log = job_accepted(st, guid);
            Turn::Printing { guid, log }
        },
    }
}

} // verus!
