//! The state shared between the firmware's tasks: the address book of the
//! machines seen on the network and the job ledger this machine holds.
//!
//! Addresses are IPv4 addresses as their 32-bit value (`Ipv4Addr::to_bits`),
//! whose order is the order of `Ipv4Addr`. Instants are `embassy_time`
//! ticks at `TICK_HZ` ticks per second.
use vstd::prelude::*;

use crate::tasks::messages::Ledger;
use crate::text::find;

verus! {

/// Ticks per second of the time base.
pub const TICK_HZ: u64 = 1000;

/// The number of machines the address book holds.
pub const ADDRESS_BOOK_ENTRIES: usize = 32;

/// The last octet of an IPv4 address.
pub open spec fn last_octet(addr: u32) -> int {
    addr as int % 256
}

/// The address book: the machines seen on the network, by address, with
/// the instant each was last heard from, in a fixed-capacity
/// `heapless::LinearMap`.
#[verifier::external_body]
pub struct AddressBook {
    map: heapless::LinearMap<u32, u64, 32>,
}

/// The entries of an address book in the map's own order.
pub uninterp spec fn address_entries(book: AddressBook) -> Seq<(u32, u64)>;

/// The addresses of a sequence of entries, in order.
pub open spec fn keys_of(e: Seq<(u32, u64)>) -> Seq<u32> {
    e.map_values(|p: (u32, u64)| p.0)
}

/// The position of `key` among the entries.
pub open spec fn key_position(e: Seq<(u32, u64)>, key: u32) -> Option<int> {
    find(keys_of(e), seq![key])
}

/// The entries after `LinearMap::insert(key, value)`: the value of an
/// existing key is replaced in place; a new key is appended when there is
/// room; otherwise nothing changes.
pub open spec fn inserted(e: Seq<(u32, u64)>, key: u32, value: u64) -> Seq<(u32, u64)> {
    match key_position(e, key) {
        Some(i) => e.update(i, (key, value)),
        None => if e.len() < ADDRESS_BOOK_ENTRIES {
            e.push((key, value))
        } else {
            e
        },
    }
}

/// What `LinearMap::insert(key, value)` returns.
pub open spec fn insert_result(e: Seq<(u32, u64)>, key: u32, value: u64) -> Result<
    Option<u64>,
    (u32, u64),
> {
    match key_position(e, key) {
        Some(i) => Ok(Some(e[i].1)),
        None => if e.len() < ADDRESS_BOOK_ENTRIES {
            Ok(None)
        } else {
            Err((key, value))
        },
    }
}

/// Hearing from a machine keeps the address book a map: no address is
/// listed twice, and the book never grows past its capacity.
pub proof fn law_address_book_stays_a_map(e: Seq<(u32, u64)>, key: u32, value: u64)
    requires
        keys_of(e).no_duplicates(),
        e.len() <= ADDRESS_BOOK_ENTRIES,
    ensures
        keys_of(inserted(e, key, value)).no_duplicates(),
        inserted(e, key, value).len() <= ADDRESS_BOOK_ENTRIES,
{
    crate::text::lemma_find_one(keys_of(e), key);
    match key_position(e, key) {
        Some(i) => {
            assert(keys_of(e.update(i, (key, value))) =~= keys_of(e));
        },
        None => {
            if e.len() < ADDRESS_BOOK_ENTRIES {
                assert(keys_of(e.push((key, value))) =~= keys_of(e).push(key));
                assert forall|a: int, b: int|
                    0 <= a < b < keys_of(e.push((key, value))).len() implies keys_of(
                    e.push((key, value)),
                )[a] != keys_of(e.push((key, value)))[b] by {
                    if b == e.len() {
                        assert(keys_of(e)[a] != key);
                    }
                }
            }
        },
    }
}

/// A machine heard from is in the address book afterwards, at the time it
/// was heard, unless the book was full and did not know it.
pub proof fn law_heard_machine_is_listed(e: Seq<(u32, u64)>, key: u32, value: u64)
    requires
        key_position(e, key) is Some || e.len() < ADDRESS_BOOK_ENTRIES,
    ensures
        exists|i: int|
            0 <= i < inserted(e, key, value).len() && #[trigger] inserted(e, key, value)[i] == (
                key,
                value,
            ),
{
    crate::text::lemma_find_one(keys_of(e), key);
    match key_position(e, key) {
        Some(i) => {
            assert(inserted(e, key, value)[i] == (key, value));
        },
        None => {
            assert(inserted(e, key, value)[e.len() as int] == (key, value));
        },
    }
}

/// An entry last heard from at `at` is still recent at `now`: less than 20
/// whole seconds have passed.
pub open spec fn is_recent_spec(now: u64, at: u64) -> bool {
    (now - at) / (TICK_HZ as int) < 20
}

pub fn is_recent(now: u64, at: u64) -> (r: bool)
    requires
        at <= now,
    ensures
        r == is_recent_spec(now, at),
{
    (now - at) / TICK_HZ < 20
}

/// Calls `heapless::LinearMap::new`: the map starts empty.
#[verifier::external_body]
fn linear_map_new() -> (r: AddressBook)
    ensures
        address_entries(r) == Seq::<(u32, u64)>::empty(),
{
    AddressBook { map: heapless::LinearMap::new() }
}

/// Calls `heapless::LinearMap::insert`. From its source: the first entry
/// with the key gets the new value and the old value is returned;
/// otherwise the pair is pushed, or handed back when the map is full.
#[verifier::external_body]
fn linear_map_insert(book: &mut AddressBook, key: u32, value: u64) -> (r: Result<
    Option<u64>,
    (u32, u64),
>)
    ensures
        address_entries(*final(book)) == inserted(address_entries(*old(book)), key, value),
        r == insert_result(address_entries(*old(book)), key, value),
{
    book.map.insert(key, value)
}

/// Calls `heapless::LinearMap::retain` with a predicate that keeps the
/// entries still recent at `now` (`is_recent`). From its source: the
/// entries kept stay in order.
#[verifier::external_body]
fn linear_map_retain_recent(book: &mut AddressBook, now: u64)
    requires
        forall|i: int|
            0 <= i < address_entries(*old(book)).len() ==> #[trigger] address_entries(
                *old(book),
            )[i].1 <= now,
    ensures
        address_entries(*final(book)) == address_entries(*old(book)).filter(
            |p: (u32, u64)| is_recent_spec(now, p.1),
        ),
{
    book.map.retain(|_k, at| is_recent(now, *at))
}

/// Calls `heapless::LinearMap::keys`, copying the keys out in the map's order.
#[verifier::external_body]
fn linear_map_keys(book: &AddressBook) -> (r: Vec<u32>)
    ensures
        r@ == keys_of(address_entries(*book)),
{
    book.map.keys().copied().collect()
}

/// Calls `heapless::LinearMap::iter`, copying the entries out in the
/// map's order.
#[verifier::external_body]
fn linear_map_entries(book: &AddressBook) -> (r: Vec<(u32, u64)>)
    ensures
        r@ == address_entries(*book),
{
    book.map.iter().map(|(k, v)| (*k, *v)).collect()
}

/// Calls `heapless::LinearMap::len`.
#[verifier::external_body]
fn linear_map_len(book: &AddressBook) -> (r: usize)
    ensures
        r == address_entries(*book).len(),
{
    book.map.len()
}

impl View for AddressBook {
    type V = Seq<(u32, u64)>;

    open spec fn view(&self) -> Seq<(u32, u64)> {
        address_entries(*self)
    }
}

impl AddressBook {
    /// An empty address book.
    pub fn new() -> (r: AddressBook)
        ensures
            r@ == Seq::<(u32, u64)>::empty(),
    {
        linear_map_new()
    }

    /// Records that `addr` was heard from at `at`. When the book is full and
    /// `addr` is new, the pair is handed back and the book is unchanged.
    pub fn insert(&mut self, addr: u32, at: u64) -> (r: Result<Option<u64>, (u32, u64)>)
        ensures
            final(self)@ == inserted(old(self)@, addr, at),
            r == insert_result(old(self)@, addr, at),
    {
        linear_map_insert(self, addr, at)
    }

    /// The addresses in the book, in the book's order.
    pub fn keys(&self) -> (r: Vec<u32>)
        ensures
            r@ == keys_of(self@),
    {
        linear_map_keys(self)
    }

    /// The entries, each address with the time it was last heard from.
    pub fn entries(&self) -> (r: Vec<(u32, u64)>)
        ensures
            r@ == self@,
    {
        linear_map_entries(self)
    }

    pub fn len(&self) -> (r: usize)
        ensures
            r == self@.len(),
    {
        linear_map_len(self)
    }

    pub fn is_empty(&self) -> (r: bool)
        ensures
            r == (self@.len() == 0),
    {
        linear_map_len(self) == 0
    }

    /// Drops the addresses not heard from for 20 seconds or more.
    pub fn retain_recent(&mut self, now: u64)
        requires
            forall|i: int| 0 <= i < old(self)@.len() ==> #[trigger] old(self)@[i].1 <= now,
        ensures
            final(self)@ == old(self)@.filter(|p: (u32, u64)| is_recent_spec(now, p.1)),
    {
        assert forall|i: int| 0 <= i < address_entries(*self).len() implies #[trigger] address_entries(
            *self,
        )[i].1 <= now by {
            assert(self@[i] == address_entries(*self)[i]);
        }
        linear_map_retain_recent(self, now)
    }
}

/// The smallest of the addresses (`Iterator::min` on `Ipv4Addr`).
pub open spec fn is_min_of(keys: Seq<u32>, m: u32) -> bool {
    keys.contains(m) && forall|i: int| 0 <= i < keys.len() ==> m <= #[trigger] keys[i]
}

pub fn min_address(keys: &Vec<u32>) -> (r: Option<u32>)
    ensures
        r is None <==> keys@.len() == 0,
        r matches Some(m) ==> is_min_of(keys@, m),
{
    if keys.len() == 0 {
        return None;
    }
    let mut m = keys[0];
    let mut i: usize = 1;
    assert(keys@.subrange(0, 1)[0] == m);
    while i < keys.len()
        invariant
            1 <= i <= keys@.len(),
            keys@.subrange(0, i as int).contains(m),
            forall|k: int| 0 <= k < i ==> m <= #[trigger] keys@[k],
        decreases keys@.len() - i,
    {
        if keys[i] < m {
            m = keys[i];
            assert(keys@.subrange(0, i + 1)[i as int] == m);
        } else {
            assert(keys@.subrange(0, i + 1)[0] == keys@[0]);
            let ghost j = choose|j: int| 0 <= j < i && keys@.subrange(0, i as int)[j] == m;
            assert(keys@.subrange(0, i + 1)[j] == m);
        }
        i = i + 1;
    }
    assert(keys@.subrange(0, keys@.len() as int) =~= keys@);
    Some(m)
}

/// A ledger plus the instant it was last received, used to notice a
/// stale ledger whose owner has gone offline.
pub struct LedgerState {
    pub ledger: Ledger,
    pub received: u64,
}

impl LedgerState {
    /// Wraps a freshly received or created ledger, timestamped `now`.
    pub fn new(ledger: Ledger, now: u64) -> (r: LedgerState)
        ensures
            r.ledger == ledger,
            r.received == now,
    {
        LedgerState { ledger, received: now }
    }

    /// Whether this machine, at address `my_addr` when it has one, owns the
    /// ledger.
    pub fn is_owner(&self, my_addr: Option<u32>) -> (r: bool)
        ensures
            r == (my_addr == Some(self.ledger.owner)),
    {
        match my_addr {
            None => false,
            Some(a) => a == self.ledger.owner,
        }
    }
}

} // verus!
