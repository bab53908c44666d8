//! The messages the machines broadcast to each other over UDP, and the job
//! ledger that travels in them.
use vstd::prelude::*;

use crate::text::find;

verus! {

/// Broadcast periodically to announce this machine is alive on the network.
pub struct Heartbeat {
    pub alive: bool,
}

/// Broadcast to announce a newly uploaded job to the rest of the network.
pub struct NewJob {
    pub guid: u128,
}

/// Milliseconds between the repeats of a message.
pub const REPEAT_GAP_MS: u64 = 200;

/// The number of jobs a ledger holds.
pub const LEDGER_JOBS: usize = 8;

/// The jobs of a ledger, in a fixed-capacity `heapless::FnvIndexSet`.
#[verifier::external_body]
pub struct JobSet {
    set: heapless::index_set::FnvIndexSet<u128, 8>,
}

/// The jobs of a set, in the set's own (insertion) order.
pub uninterp spec fn job_entries(jobs: JobSet) -> Seq<u128>;

/// The jobs after `IndexSet::insert(guid)`: appended when new and there is
/// room, otherwise unchanged.
pub open spec fn job_inserted(e: Seq<u128>, guid: u128) -> Seq<u128> {
    if e.contains(guid) || e.len() >= LEDGER_JOBS {
        e
    } else {
        e.push(guid)
    }
}

/// What `IndexSet::insert(guid)` returns: whether the job is new, or the job
/// handed back when the set is full.
pub open spec fn job_insert_result(e: Seq<u128>, guid: u128) -> Result<bool, u128> {
    if e.contains(guid) {
        Ok(false)
    } else if e.len() < LEDGER_JOBS {
        Ok(true)
    } else {
        Err(guid)
    }
}

/// The jobs after `IndexSet::remove(guid)`, which swaps the last job into
/// the place of the removed one.
pub open spec fn job_removed(e: Seq<u128>, guid: u128) -> Seq<u128> {
    match find(e, seq![guid]) {
        None => e,
        Some(i) => e.update(i, e.last()).drop_last(),
    }
}

/// Adding a job keeps the ledger's jobs a set of at most `LEDGER_JOBS`;
/// the job is in it afterwards unless the ledger was full.
pub proof fn law_ledger_jobs_stay_a_set(e: Seq<u128>, guid: u128)
    requires
        e.no_duplicates(),
        e.len() <= LEDGER_JOBS,
    ensures
        job_inserted(e, guid).no_duplicates(),
        job_inserted(e, guid).len() <= LEDGER_JOBS,
        e.contains(guid) || e.len() < LEDGER_JOBS ==> job_inserted(e, guid).contains(guid),
{
    if !e.contains(guid) && e.len() < LEDGER_JOBS {
        let f = e.push(guid);
        assert(f[e.len() as int] == guid);
        assert forall|a: int, b: int| 0 <= a < b < f.len() implies f[a] != f[b] by {
            if b == e.len() {
                assert(f[a] == e[a]);
            } else {
                assert(f[a] == e[a] && f[b] == e[b]);
            }
        }
    }
}

/// Removing a job takes exactly that job out of the ledger: it is gone,
/// every other job stays, and the jobs remain a set.
pub proof fn law_removed_job_leaves_ledger(e: Seq<u128>, guid: u128, other: u128)
    requires
        e.no_duplicates(),
        other != guid,
    ensures
        !job_removed(e, guid).contains(guid),
        job_removed(e, guid).contains(other) == e.contains(other),
        job_removed(e, guid).no_duplicates(),
{
    crate::text::lemma_find_one(e, guid);
    match find(e, seq![guid]) {
        None => {},
        Some(i) => {
            let last = e.len() - 1;
            let f = e.update(i, e.last()).drop_last();
            assert(f.len() == last);
            assert forall|k: int| 0 <= k < f.len() implies f[k] == (if k == i {
                e[last]
            } else {
                e[k]
            }) by {}
            assert forall|k: int| 0 <= k < f.len() implies f[k] != guid by {
                if k == i {
                    assert(e[last] != e[i] || last == i);
                } else {
                    assert(e[k] != e[i]);
                }
            }
            if e.contains(other) {
                let j = choose|j: int| 0 <= j < e.len() && e[j] == other;
                if j == last {
                    assert(f[i] == other);
                } else {
                    assert(j != i);
                    assert(f[j] == other);
                }
            }
            if f.contains(other) {
                let k = choose|k: int| 0 <= k < f.len() && f[k] == other;
                if k == i {
                    assert(e[last] == other);
                } else {
                    assert(e[k] == other);
                }
            }
            assert forall|a: int, b: int| 0 <= a < b < f.len() implies f[a] != f[b] by {
                if a == i {
                    assert(e[last] != e[b]);
                } else if b == i {
                    assert(e[a] != e[last]);
                } else {
                    assert(e[a] != e[b]);
                }
            }
        },
    }
}

/// Calls `heapless::index_set::FnvIndexSet::new`: the set starts empty.
#[verifier::external_body]
fn index_set_new() -> (r: JobSet)
    ensures
        job_entries(r) == Seq::<u128>::empty(),
{
    JobSet { set: heapless::index_set::FnvIndexSet::new() }
}

/// Calls `heapless::IndexSet::insert`. From its source: a value already in
/// the set is left in place (`Ok(false)`); a new value is pushed after the
/// others (`Ok(true)`), or handed back when all 8 places are taken.
#[verifier::external_body]
fn index_set_insert(jobs: &mut JobSet, guid: u128) -> (r: Result<bool, u128>)
    ensures
        job_entries(*final(jobs)) == job_inserted(job_entries(*old(jobs)), guid),
        r == job_insert_result(job_entries(*old(jobs)), guid),
{
    jobs.set.insert(guid)
}

/// Calls `heapless::IndexSet::remove`. From its source: the entry is
/// removed by swapping the last entry into its place (`swap_remove`); the
/// result says whether the value was present.
#[verifier::external_body]
fn index_set_remove(jobs: &mut JobSet, guid: u128) -> (r: bool)
    ensures
        job_entries(*final(jobs)) == job_removed(job_entries(*old(jobs)), guid),
        r == job_entries(*old(jobs)).contains(guid),
{
    jobs.set.remove(&guid)
}

/// Calls `heapless::IndexSet::iter`, copying the jobs out in the set's order.
#[verifier::external_body]
fn index_set_to_vec(jobs: &JobSet) -> (r: Vec<u128>)
    ensures
        r@ == job_entries(*jobs),
{
    jobs.set.iter().copied().collect()
}

/// Calls `heapless::IndexSet::clone`, which copies the entries in order.
#[verifier::external_body]
fn index_set_clone(jobs: &JobSet) -> (r: JobSet)
    ensures
        job_entries(r) == job_entries(*jobs),
{
    JobSet { set: jobs.set.clone() }
}

impl View for JobSet {
    type V = Seq<u128>;

    open spec fn view(&self) -> Seq<u128> {
        job_entries(*self)
    }
}

impl JobSet {
    /// An empty set of jobs.
    pub fn new() -> (r: JobSet)
        ensures
            r@ == Seq::<u128>::empty(),
    {
        index_set_new()
    }

    /// Adds a job; a full set hands it back.
    pub fn insert(&mut self, guid: u128) -> (r: Result<bool, u128>)
        ensures
            final(self)@ == job_inserted(old(self)@, guid),
            r == job_insert_result(old(self)@, guid),
    {
        index_set_insert(self, guid)
    }

    /// Removes a job, returning whether it was there.
    pub fn remove(&mut self, guid: u128) -> (r: bool)
        ensures
            final(self)@ == job_removed(old(self)@, guid),
            r == old(self)@.contains(guid),
    {
        index_set_remove(self, guid)
    }

    /// The jobs in the set's order.
    pub fn to_vec(&self) -> (r: Vec<u128>)
        ensures
            r@ == self@,
    {
        index_set_to_vec(self)
    }

    /// A copy of the set.
    pub fn duplicate(&self) -> (r: JobSet)
        ensures
            r@ == self@,
    {
        index_set_clone(self)
    }
}

/// The token-ring ledger of pending jobs, tracking which machine currently
/// owns it.
pub struct Ledger {
    pub owner: u32,
    pub jobs: JobSet,
}

impl Ledger {
    /// A copy of the ledger, to broadcast.
    pub fn duplicate(&self) -> (r: Ledger)
        ensures
            r.owner == self.owner,
            r.jobs@ == self.jobs@,
    {
        Ledger { owner: self.owner, jobs: self.jobs.duplicate() }
    }
}

/// The kinds of message broadcast over UDP between machines.
pub enum Payload {
    Heartbeat(Heartbeat),
    NewJob(NewJob),
    Ledger(Ledger),
    Log(String),
}

impl Payload {
    /// How many times a message is broadcast, to tolerate packet loss: a
    /// heartbeat once, a new job or a ledger five times, a log twice.
    pub fn repeats(&self) -> (r: usize)
        ensures
            r == match self {
                Payload::Heartbeat(_) => 1usize,
                Payload::NewJob(_) => 5,
                Payload::Ledger(_) => 5,
                Payload::Log(_) => 2,
            },
    {
        match self {
            Payload::Heartbeat(_) => 1,
            Payload::NewJob(_) => 5,
            Payload::Ledger(_) => 5,
            Payload::Log(_) => 2,
        }
    }
}

/// The envelope every UDP message is wrapped in, carrying an idempotency
/// key used to drop duplicate deliveries.
pub struct Message {
    pub idempotency: u128,
    pub payload: Payload,
}

} // verus!
