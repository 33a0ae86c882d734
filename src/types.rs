use vstd::prelude::*;

verus! {

/// A token amount, counted in attos (the smallest unit).
#[derive(Clone, Copy, Debug, PartialEq, Eq, Structural)]
pub struct Amount(pub u128);

impl Amount {
    pub open spec fn attos(self) -> int {
        self.0 as int
    }

    pub fn from_attos(attos: u128) -> (r: Amount)
        ensures
            r.0 == attos,
    {
        Amount(attos)
    }

    pub fn to_attos(self) -> (r: u128)
        ensures
            r == self.0,
    {
        self.0
    }

    /// Checked addition: `None` exactly when the sum leaves the range of `u128`.
    pub fn try_add(self, other: Amount) -> (r: Option<Amount>)
        ensures
            self.attos() + other.attos() <= u128::MAX ==> r == Some(
                Amount((self.attos() + other.attos()) as u128),
            ),
            self.attos() + other.attos() > u128::MAX ==> r.is_none(),
    {
        match self.0.checked_add(other.0) {
            Some(s) => Some(Amount(s)),
            None => None,
        }
    }
}

/// A point in time, in microseconds since the Unix epoch.
#[derive(Clone, Copy, Debug, PartialEq, Eq, Structural)]
pub struct Timestamp(pub u64);

impl Timestamp {
    pub fn from_micros(micros: u64) -> (r: Timestamp)
        ensures
            r.0 == micros,
    {
        Timestamp(micros)
    }

    pub fn micros(&self) -> (r: u64)
        ensures
            r == self.0,
    {
        self.0
    }
}

/// A 32-byte hash, held as four 64-bit words in big-endian order: the first
/// word holds bytes 0 to 7, the most significant byte first.
#[derive(Clone, Copy, Debug, PartialEq, Eq, Structural)]
pub struct CryptoHash(pub u64, pub u64, pub u64, pub u64);

/// The identifier of an execution domain (a chain).
#[derive(Clone, Copy, Debug, PartialEq, Eq, Structural)]
pub struct ChainId(pub CryptoHash);

/// An authenticated principal: an account owner.
#[derive(Clone, Copy, Debug, PartialEq, Eq, Structural)]
pub enum AccountOwner {
    /// A short address reserved for the protocol.
    Reserved(u8),
    /// A 32-byte account address.
    Address32(CryptoHash),
    /// A 20-byte address, as two 64-bit words and one 32-bit word, big-endian.
    Address20(u64, u64, u32),
}

/// The reasons an operation is rejected.
#[derive(Clone, Copy, Debug, PartialEq, Eq, Structural)]
pub enum OddssyncError {
    /// An argument breaks the operation's rules (too few options, an empty
    /// description, an option index out of range, a zero stake, ...).
    InvalidParameters,
    /// No market has the given identifier.
    MarketNotFound,
    /// The market is resolved and takes no more bets.
    BettingNotAllowed,
    /// The caller may not resolve this market.
    Unauthorized,
    /// A running total would leave the range of `Amount`.
    AmountOverflow,
    /// The operation came without an authenticated caller.
    Unauthenticated,
    /// The caller's balance does not cover the stake.
    InsufficientBalance,
    /// The storage collaborator failed.
    StorageFailure,
}

/// The record of one market.
#[derive(Clone, Debug)]
pub struct MarketInfo {
    pub market_id: u64,
    pub chain_id: ChainId,
    pub description: String,
    pub creator: AccountOwner,
    pub options: Vec<String>,
    pub liquidity: Amount,
    pub total_bets: Amount,
    pub created_at: Timestamp,
    pub resolved_at: Option<Timestamp>,
    pub winning_option: Option<u32>,
    pub is_active: bool,
}

impl MarketInfo {
    /// A market is open until it is resolved; the three resolution fields
    /// change together.
    pub open spec fn status_consistent(&self) -> bool {
        &&& self.winning_option.is_some() <==> !self.is_active
        &&& self.resolved_at.is_some() <==> !self.is_active
    }

    pub open spec fn wf(&self) -> bool {
        &&& self.status_consistent()
        &&& self.options@.len() >= 2
        &&& self.winning_option matches Some(w) ==> w < self.options@.len()
    }
}

/// An accepted bet. Immutable once recorded.
#[derive(Clone, Copy, Debug, PartialEq, Eq, Structural)]
pub struct Bet {
    pub bettor: AccountOwner,
    pub amount: Amount,
    pub option_index: u32,
    pub placed_at: Timestamp,
    pub market_id: u64,
}

/// What a caller supplies to open a market.
#[derive(Clone, Debug)]
pub struct MarketCreationParams {
    pub description: String,
    pub options: Vec<String>,
    pub initial_liquidity: Amount,
}

/// What a caller supplies to place a bet.
#[derive(Clone, Copy, Debug, PartialEq, Eq, Structural)]
pub struct BetParams {
    pub market_id: u64,
    pub option_index: u32,
    pub amount: Amount,
}

/// The operations a caller submits, and the one message that arrives from
/// another domain.
#[derive(Clone, Debug)]
pub enum OddssyncMessage {
    CreateMarket(MarketCreationParams),
    PlaceBet(BetParams),
    ResolveMarket { market_id: u64, winning_option: u32 },
    /// A bet placed on `from_chain`, numbered `sequence` there, for a market
    /// hosted here. The pair `(from_chain, sequence)` identifies the delivery.
    CrossChainBet { from_chain: ChainId, sequence: u64, bet: Bet },
}

/// The answer to an accepted operation.
#[derive(Clone, Copy, Debug, PartialEq, Eq, Structural)]
pub enum OddssyncResponse {
    MarketCreated { market_id: u64, chain_id: ChainId },
    BetPlaced { bet_id: u64 },
    MarketResolved { market_id: u64 },
}

/// The answer to a cross-domain bet, addressed back to the domain it came from.
#[derive(Clone, Copy, Debug)]
pub struct CrossChainReceipt {
    pub to_chain: ChainId,
    pub sequence: u64,
    pub outcome: Result<u64, OddssyncError>,
}

/// Marker for the application's interface: its operations are
/// `OddssyncMessage`, its responses `OddssyncResponse`.
#[derive(Clone, Copy, Debug, PartialEq, Eq, PartialOrd, Ord, Hash)]
pub struct OddssyncAbi;

} // verus!
