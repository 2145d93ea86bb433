//! Deterministic pseudo-random words, derived by hashing a seed with names.
use vstd::prelude::*;

use vstd::string::*;

use crate::Word;

verus! {

/// What `seahash::hash` returns for the bytes `b`.
pub uninterp spec fn seahash_of(b: Seq<u8>) -> u64;

/// Relies on `seahash::hash`: a 64-bit hash that depends on the bytes alone.
#[verifier::external_body]
fn hash_bytes(b: &Vec<u8>) -> (r: u64)
    ensures
        r == seahash_of(b@),
{
    seahash::hash(b)
}

/// The big-endian bytes of `x`.
pub open spec fn be_bytes(x: u64) -> Seq<u8> {
    seq![
        (x / 0x100_0000_0000_0000) as u8,
        (x / 0x1_0000_0000_0000 % 0x100) as u8,
        (x / 0x100_0000_0000 % 0x100) as u8,
        (x / 0x1_0000_0000 % 0x100) as u8,
        (x / 0x100_0000 % 0x100) as u8,
        (x / 0x1_0000 % 0x100) as u8,
        (x / 0x100 % 0x100) as u8,
        (x % 0x100) as u8,
    ]
}

/// The seed derived from `seed` and the name bytes `name`.
pub open spec fn derive_spec(seed: u64, name: Seq<u8>) -> u64 {
    seahash_of(be_bytes(seed) + name)
}

/// The big-endian bytes of `x`.
pub fn to_be_bytes(x: u64) -> (r: Vec<u8>)
    ensures
        r@ == be_bytes(x),
{
    let r: Vec<u8> = vec![
        (x / 0x100_0000_0000_0000) as u8,
        (x / 0x1_0000_0000_0000 % 0x100) as u8,
        (x / 0x100_0000_0000 % 0x100) as u8,
        (x / 0x1_0000_0000 % 0x100) as u8,
        (x / 0x100_0000 % 0x100) as u8,
        (x / 0x1_0000 % 0x100) as u8,
        (x / 0x100 % 0x100) as u8,
        (x % 0x100) as u8,
    ];
    assert(r@ =~= be_bytes(x));
    r
}

/// A seed from which further seeds and words are derived by name.
#[derive(Debug, PartialEq, Eq, Structural)]
pub struct Rand(u64);

impl Rand {
    pub closed spec fn seed(self) -> u64 {
        self.0
    }

    pub fn new(seed: u64) -> (r: Rand)
        ensures
            r.seed() == seed,
    {
        Rand(seed)
    }

    /// The seed derived from this one and the bytes `name`.
    pub fn get_bytes(&self, name: &[u8]) -> (r: Rand)
        ensures
            r.seed() == derive_spec(self.seed(), name@),
    {
        let mut to_hash = to_be_bytes(self.0);
        let ghost start = to_hash@;
        let mut i: usize = 0;
        while i < name.len()
            invariant
                i <= name@.len(),
                start == be_bytes(self.0),
                to_hash@ == start + name@.take(i as int),
            decreases name@.len() - i,
        {
            to_hash.push(name[i]);
            assert(start + name@.take(i as int + 1) =~= (start + name@.take(i as int)).push(name@[i as int]));
            i = i + 1;
        }
        assert(name@.take(i as int) =~= name@);
        Rand(hash_bytes(&to_hash))
    }

    /// The seed derived from this one and the UTF-8 bytes of `name`.
    pub fn get(&self, name: &str) -> (r: Rand)
        ensures
            r.seed() == derive_spec(self.seed(), name.spec_bytes()),
    {
        self.get_bytes(name.as_bytes())
    }

    /// The seed as a word.
    pub fn word(self) -> (r: Word)
        ensures
            r == self.seed(),
    {
        self.0
    }

    /// The node at the seed's position modulo the number of nodes; `None` when
    /// there are none.
    pub fn select<'t, T>(&self, nodes: &'t [T]) -> (r: Option<&'t T>)
        requires
            nodes@.len() == 0 || nodes@.len() < u64::MAX - self.seed(),
        ensures
            nodes@.len() == 0 ==> r is None,
            nodes@.len() > 0 ==> r == Some(&nodes@[(self.seed() % nodes@.len() as u64) as int]),
    {
        let n = nodes.len();
        if n == 0 {
            return None;
        }
        let i = self.0 % (n as u64);
        Some(&nodes[i as usize])
    }
}

} // verus!
