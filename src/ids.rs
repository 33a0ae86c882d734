use vstd::prelude::*;
use crate::types::{ChainId, CryptoHash};

verus! {

/// A counter that hands out identifiers in increasing order, each once.
#[derive(Debug)]
pub struct IdAllocator {
    next: u64,
}

impl IdAllocator {
    /// The identifier that the next allocation returns.
    pub closed spec fn next_id(&self) -> u64 {
        self.next
    }

    pub fn new() -> (r: IdAllocator)
        ensures
            r.next_id() == 0,
    {
        IdAllocator { next: 0 }
    }

    pub fn peek(&self) -> (r: u64)
        ensures
            r == self.next_id(),
    {
        self.next
    }

    /// Returns the current value and moves the counter past it.
    pub fn allocate(&mut self) -> (id: u64)
        requires
            old(self).next_id() < u64::MAX,
        ensures
            id == old(self).next_id(),
            final(self).next_id() == old(self).next_id() + 1,
    {
        let id = self.next;
        self.next = id + 1;
        id
    }
}

/// `x` with its eight bytes in reverse order.
pub open spec fn byte_swap(x: u64) -> u64 {
    ((x & 0xff) << 56u64) | (((x >> 8u64) & 0xff) << 48u64) | (((x >> 16u64) & 0xff) << 40u64) | (((
    x >> 24u64) & 0xff) << 32u64) | (((x >> 32u64) & 0xff) << 24u64) | (((x >> 40u64) & 0xff)
        << 16u64) | (((x >> 48u64) & 0xff) << 8u64) | ((x >> 56u64) & 0xff)
}

/// The home domain of a market: a hash whose first eight bytes hold the market
/// identifier in little-endian order, all other bytes zero.
pub open spec fn home_chain_of(market_id: u64) -> ChainId {
    ChainId(CryptoHash(byte_swap(market_id), 0, 0, 0))
}

pub proof fn lemma_byte_swap_involution(x: u64)
    ensures
        byte_swap(byte_swap(x)) == x,
{
    let y = byte_swap(x);
    assert(y == ((x & 0xff) << 56u64) | (((x >> 8u64) & 0xff) << 48u64) | (((x >> 16u64) & 0xff)
        << 40u64) | (((x >> 24u64) & 0xff) << 32u64) | (((x >> 32u64) & 0xff) << 24u64) | (((x
        >> 40u64) & 0xff) << 16u64) | (((x >> 48u64) & 0xff) << 8u64) | ((x >> 56u64) & 0xff));
    assert(((y & 0xff) << 56u64) | (((y >> 8u64) & 0xff) << 48u64) | (((y >> 16u64) & 0xff)
        << 40u64) | (((y >> 24u64) & 0xff) << 32u64) | (((y >> 32u64) & 0xff) << 24u64) | (((y
        >> 40u64) & 0xff) << 16u64) | (((y >> 48u64) & 0xff) << 8u64) | ((y >> 56u64) & 0xff)
        == x) by (bit_vector)
        requires
            y == ((x & 0xff) << 56u64) | (((x >> 8u64) & 0xff) << 48u64) | (((x >> 16u64) & 0xff)
                << 40u64) | (((x >> 24u64) & 0xff) << 32u64) | (((x >> 32u64) & 0xff) << 24u64)
                | (((x >> 40u64) & 0xff) << 16u64) | (((x >> 48u64) & 0xff) << 8u64) | ((x
                >> 56u64) & 0xff),
    ;
}

/// Distinct markets have distinct home domains.
pub proof fn lemma_home_chain_injective(a: u64, b: u64)
    ensures
        home_chain_of(a) == home_chain_of(b) <==> a == b,
{
    lemma_byte_swap_involution(a);
    lemma_byte_swap_involution(b);
}

fn byte_swap_exec(x: u64) -> (r: u64)
    ensures
        r == byte_swap(x),
{
    ((x & 0xff) << 56u64) | (((x >> 8u64) & 0xff) << 48u64) | (((x >> 16u64) & 0xff) << 40u64) | (((
    x >> 24u64) & 0xff) << 32u64) | (((x >> 32u64) & 0xff) << 24u64) | (((x >> 40u64) & 0xff)
        << 16u64) | (((x >> 48u64) & 0xff) << 8u64) | ((x >> 56u64) & 0xff)
}

/// The home domain that a new market is assigned.
pub fn home_chain(market_id: u64) -> (r: ChainId)
    ensures
        r == home_chain_of(market_id),
{
    ChainId(CryptoHash(byte_swap_exec(market_id), 0, 0, 0))
}

/// The market whose home domain is `chain`, if `chain` has the shape that
/// `home_chain` gives.
pub fn market_id_of_chain(chain: &ChainId) -> (r: Option<u64>)
    ensures
        r matches Some(id) ==> home_chain_of(id) == *chain,
        r is None ==> forall|id: u64| home_chain_of(id) != *chain,
{
    let h = chain.0;
    if h.1 == 0 && h.2 == 0 && h.3 == 0 {
        let id = byte_swap_exec(h.0);
        proof {
            lemma_byte_swap_involution(h.0);
        }
        Some(id)
    } else {
        None
    }
}

} // verus!
