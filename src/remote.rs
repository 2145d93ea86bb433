//! Other nodes onto which threads may be placed.
use vstd::prelude::*;

use crate::thread::ThreadCtx;

verus! {

/// A remote node.
#[derive(Debug)]
pub struct Peer {}

/// The known remote nodes.
#[derive(Debug)]
pub struct Peers {
    peers: Vec<Peer>,
}

impl Peers {
    pub closed spec fn spec_len(&self) -> nat {
        self.peers@.len()
    }

    /// No peers: every thread stays local.
    pub fn new() -> (r: Peers)
        ensures
            r.spec_len() == 0,
    {
        Peers { peers: Vec::new() }
    }

    pub fn len(&self) -> (r: usize)
        ensures
            r == self.spec_len(),
    {
        self.peers.len()
    }

    /// The peer at `index`.
    pub fn get(&self, index: usize) -> (r: &Peer)
        requires
            index < self.spec_len(),
    {
        &self.peers[index]
    }
}

/// What is sent to a peer.
#[derive(Debug)]
pub enum Message {
    /// Run this thread.
    Spawn { context: ThreadCtx },
}

} // verus!
