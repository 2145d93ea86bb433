//! Thread ids, thread placement, and the table of threads that can be joined.
use vstd::prelude::*;
use vstd::string::*;

use std::collections::HashMap;

use crate::error::VmError;
use crate::rand::{derive_spec, Rand};
use crate::remote::Peers;
use crate::Word;

verus! {

/// The decimal digits of `n`, as ASCII bytes.
pub open spec fn decimal(n: nat) -> Seq<u8>
    decreases n,
{
    if n < 10 {
        seq![(48 + n) as u8]
    } else {
        decimal(n / 10).push((48 + n % 10) as u8)
    }
}

/// Appends the decimal digits of `n` to `out`.
pub fn push_decimal(n: u64, out: &mut Vec<u8>)
    ensures
        final(out)@ == old(out)@ + decimal(n as nat),
    decreases n,
{
    if n >= 10 {
        push_decimal(n / 10, out);
    }
    out.push((48 + n % 10) as u8);
    assert(final(out)@ =~= old(out)@ + decimal(n as nat));
}

/// The id of the thread spawned as number `count` by a spawner seeded with
/// `seed`.
pub open spec fn thread_id_spec(seed: u64, count: u64) -> Word {
    derive_spec(derive_spec(seed, "thread_id".spec_bytes()), decimal(count as nat))
}

/// Where a new thread runs.
#[derive(Debug, Clone, Copy, PartialEq, Eq, Structural)]
pub enum Placement {
    Local,
    /// On the peer with this index.
    Remote(usize),
}

/// The placement of thread `id` among this node and `peers` others: the id
/// modulo the number of nodes, 0 being this node.
pub open spec fn placement_spec(id: Word, peers: nat) -> Placement {
    let r = id as int % (peers as int + 1);
    if r == 0 {
        Placement::Local
    } else {
        Placement::Remote((r - 1) as usize)
    }
}

/// The placement of thread `id` among this node and `peers` others.
pub fn placement(id: Word, peers: usize) -> (r: Placement)
    ensures
        r == placement_spec(id, peers as nat),
{
    let locations: u128 = peers as u128 + 1;
    let r = (id as u128) % locations;
    if r == 0 {
        Placement::Local
    } else {
        Placement::Remote((r - 1) as usize)
    }
}

/// Allocates thread ids, places threads, and keeps the handles of local threads
/// until they are joined.
pub struct Spawner<H> {
    rand: Rand,
    spawn_count: u64,
    threads: HashMap<Word, H>,
    peers: Peers,
}

impl<H> Spawner<H> {
    pub closed spec fn seed(&self) -> u64 {
        self.rand.seed()
    }

    /// How many ids have been allocated (modulo 2^64).
    pub closed spec fn count(&self) -> u64 {
        self.spawn_count
    }

    /// The handles of the threads that can still be joined.
    pub closed spec fn handles(&self) -> Map<Word, H> {
        self.threads@
    }

    pub closed spec fn peer_count(&self) -> nat {
        self.peers.spec_len()
    }

    pub fn new(rand: Rand, peers: Peers) -> (r: Spawner<H>)
        ensures
            r.seed() == rand.seed(),
            r.count() == 0,
            r.handles() == Map::<Word, H>::empty(),
            r.peer_count() == peers.spec_len(),
    {
        Spawner { rand, spawn_count: 0, threads: HashMap::new(), peers }
    }

    pub fn peers(&self) -> (r: &Peers)
        ensures
            r.spec_len() == self.peer_count(),
    {
        &self.peers
    }

    /// A fresh thread id and where the thread is to run.
    pub fn allocate(&mut self) -> (r: (Word, Placement))
        ensures
            r.0 == thread_id_spec(old(self).seed(), old(self).count()),
            r.1 == placement_spec(r.0, old(self).peer_count()),
            final(self).count() == old(self).count().wrapping_add(1),
            final(self).seed() == old(self).seed(),
            final(self).handles() == old(self).handles(),
            final(self).peer_count() == old(self).peer_count(),
    {
        let mut digits: Vec<u8> = Vec::new();
        push_decimal(self.spawn_count, &mut digits);
        assert(digits@ =~= decimal(self.spawn_count as nat));
        let thread_id = self.rand.get("thread_id").get_bytes(digits.as_slice()).word();
        self.spawn_count = self.spawn_count.wrapping_add(1);
        (thread_id, placement(thread_id, self.peers.len()))
    }

    /// Keeps the handle of local thread `id` until it is joined.
    pub fn register(&mut self, id: Word, handle: H)
        ensures
            final(self).handles() == old(self).handles().insert(id, handle),
            final(self).seed() == old(self).seed(),
            final(self).count() == old(self).count(),
            final(self).peer_count() == old(self).peer_count(),
    {
        self.threads.insert(id, handle);
    }

    /// Takes the handle of thread `tid` for a join; each thread is joined once.
    pub fn take(&mut self, tid: Word) -> (r: Result<H, VmError>)
        ensures
            old(self).handles().contains_key(tid) ==> r == Ok::<H, VmError>(old(self).handles()[tid])
                && final(self).handles() == old(self).handles().remove(tid),
            !old(self).handles().contains_key(tid) ==> r == Err::<H, VmError>(
                VmError::JoinedUnknownThread(tid),
            ) && final(self).handles() == old(self).handles(),
            final(self).seed() == old(self).seed(),
            final(self).count() == old(self).count(),
            final(self).peer_count() == old(self).peer_count(),
    {
        match self.threads.remove(&tid) {
            Some(h) => Ok(h),
            None => Err(VmError::JoinedUnknownThread(tid)),
        }
    }
}

} // verus!
