use vstd::prelude::*;
use crate::ids::{home_chain, home_chain_of, lemma_home_chain_injective, market_id_of_chain, IdAllocator};
use crate::pool::{
    bet_outcome_on, lemma_entry_le_sum, lemma_sum_update, lemma_sum_zero_amounts, stake_added_at,
    sum_amounts, zero_amounts, BettingPool,
};
use crate::types::{
    AccountOwner, Amount, Bet, BetParams, ChainId, CrossChainReceipt, MarketCreationParams,
    MarketInfo, OddssyncError, Timestamp,
};

verus! {

/// `m` with its running total raised by `a`.
pub open spec fn with_stake_added(m: MarketInfo, a: Amount) -> MarketInfo {
    MarketInfo { total_bets: Amount((m.total_bets.0 + a.0) as u128), ..m }
}

/// The record of one delivered cross-domain bet and the answer it got.
#[derive(Debug)]
pub struct Delivery {
    pub from_chain: ChainId,
    pub sequence: u64,
    pub outcome: Result<u64, OddssyncError>,
}

pub open spec fn delivery_key(d: Delivery) -> (ChainId, u64) {
    (d.from_chain, d.sequence)
}

pub open spec fn delivery_keys_unique(entries: Seq<Delivery>) -> bool {
    forall|i: int, k: int|
        0 <= i < entries.len() && 0 <= k < entries.len() && i != k ==> delivery_key(entries[i])
            != delivery_key(entries[k])
}

/// The answers recorded in a delivery log, by `(origin domain, sequence number)`.
pub open spec fn delivered_in(entries: Seq<Delivery>) -> Map<(ChainId, u64), Result<u64, OddssyncError>> {
    Map::new(
        |key: (ChainId, u64)| exists|i: int| 0 <= i < entries.len() && delivery_key(entries[i]) == key,
        |key: (ChainId, u64)|
            entries[choose|i: int| 0 <= i < entries.len() && delivery_key(entries[i]) == key].outcome,
    )
}

pub proof fn lemma_delivered_at(entries: Seq<Delivery>, i: int)
    requires
        delivery_keys_unique(entries),
        0 <= i < entries.len(),
    ensures
        delivered_in(entries).contains_key(delivery_key(entries[i])),
        delivered_in(entries)[delivery_key(entries[i])] == entries[i].outcome,
{
    let key = delivery_key(entries[i]);
    assert(0 <= i < entries.len() && delivery_key(entries[i]) == key);
    let c = choose|c: int| 0 <= c < entries.len() && delivery_key(entries[c]) == key;
    assert(c == i);
}

pub proof fn lemma_delivered_push(entries: Seq<Delivery>, d: Delivery)
    requires
        delivery_keys_unique(entries),
        !delivered_in(entries).contains_key(delivery_key(d)),
    ensures
        delivery_keys_unique(entries.push(d)),
        delivered_in(entries.push(d)) == delivered_in(entries).insert(delivery_key(d), d.outcome),
{
    let after = entries.push(d);
    assert(delivery_keys_unique(after)) by {
        assert forall|i: int| 0 <= i < entries.len() implies delivery_key(entries[i]) != delivery_key(d) by {
            if delivery_key(entries[i]) == delivery_key(d) {
                assert(delivered_in(entries).dom().contains(delivery_key(d)));
            }
        }
    }
    let lhs = delivered_in(after);
    let rhs = delivered_in(entries).insert(delivery_key(d), d.outcome);
    assert forall|key: (ChainId, u64)| #[trigger] lhs.contains_key(key) <==> rhs.contains_key(key) by {
        if lhs.contains_key(key) {
            let i = choose|i: int| 0 <= i < after.len() && delivery_key(after[i]) == key;
            if i < entries.len() {
                assert(after[i] == entries[i]);
                assert(delivered_in(entries).contains_key(key));
            }
        }
        if rhs.contains_key(key) {
            if key == delivery_key(d) {
                assert(delivery_key(after[entries.len() as int]) == key);
            } else {
                let i = choose|i: int| 0 <= i < entries.len() && delivery_key(entries[i]) == key;
                assert(after[i] == entries[i]);
            }
        }
    }
    assert forall|key: (ChainId, u64)| #[trigger] lhs.contains_key(key) implies lhs[key] == rhs[key] by {
        let i = choose|i: int| 0 <= i < after.len() && delivery_key(after[i]) == key;
        lemma_delivered_at(after, i);
        if i < entries.len() {
            assert(after[i] == entries[i]);
            lemma_delivered_at(entries, i);
        }
    }
    assert(lhs =~= rhs);
}

/// The state of the application: the market directory, the betting ledger
/// and the log of delivered cross-domain bets.
#[derive(Debug)]
pub struct MarketFactory {
    /// Market id -> market record; a market's id is its position.
    markets: Vec<MarketInfo>,
    next_market_id: IdAllocator,
    pool: BettingPool,
    deliveries: Vec<Delivery>,
}

impl MarketFactory {
    /// The market records, by identifier.
    pub closed spec fn markets(&self) -> Seq<MarketInfo> {
        self.markets@
    }

    /// Stake per option of market `m`.
    pub closed spec fn option_totals(&self, m: int) -> Seq<Amount> {
        self.pool.option_totals(m)
    }

    /// Every accepted bet; a bet's identifier is its position.
    pub closed spec fn bets(&self) -> Seq<Bet> {
        self.pool.bets()
    }

    /// The bets of `owner`, in the order they were placed.
    pub closed spec fn history(&self, owner: AccountOwner) -> Seq<Bet> {
        self.pool.history(owner)
    }

    pub closed spec fn next_market_id(&self) -> u64 {
        self.next_market_id.next_id()
    }

    pub closed spec fn next_bet_id(&self) -> u64 {
        self.pool.next_bet_id()
    }

    /// The answer given to each cross-domain bet delivered so far.
    pub closed spec fn delivered(&self) -> Map<(ChainId, u64), Result<u64, OddssyncError>> {
        delivered_in(self.deliveries@)
    }

    /// The counters match the tables, and no delivery is logged twice.
    pub closed spec fn counters_wf(&self) -> bool {
        &&& self.pool.wf()
        &&& self.next_market_id.next_id() == self.markets@.len()
        &&& self.pool.market_count() == self.markets@.len()
        &&& delivery_keys_unique(self.deliveries@)
    }

    /// Market `m` is well formed, sits at its own identifier and home domain,
    /// and its running total is the sum of its per-option totals.
    pub open spec fn market_consistent(&self, m: int) -> bool {
        let info = self.markets()[m];
        &&& info.wf()
        &&& info.market_id == m
        &&& info.chain_id == home_chain_of(m as u64)
        &&& self.option_totals(m).len() == info.options@.len()
        &&& sum_amounts(self.option_totals(m)) == info.total_bets.0
    }

    pub open spec fn wf(&self) -> bool {
        &&& self.counters_wf()
        &&& self.next_market_id() == self.markets().len()
        &&& self.next_bet_id() == self.bets().len()
        &&& forall|m: int| 0 <= m < self.markets().len() ==> self.market_consistent(m)
    }

    /// Both identifier counters can still advance.
    pub open spec fn ids_left(&self) -> bool {
        &&& self.next_market_id() < u64::MAX
        &&& self.next_bet_id() < u64::MAX
    }

    /// Everything but the delivery log is the same in `old` and `new`.
    pub open spec fn ledger_unchanged(old: MarketFactory, new: MarketFactory) -> bool {
        &&& new.markets() == old.markets()
        &&& forall|m: int| #[trigger] new.option_totals(m) == old.option_totals(m)
        &&& new.bets() == old.bets()
        &&& forall|o: AccountOwner| #[trigger] new.history(o) == old.history(o)
        &&& new.next_market_id() == old.next_market_id()
        &&& new.next_bet_id() == old.next_bet_id()
    }

    /// Markets are only ever added, a resolved market never changes again, and
    /// no option's stake ever goes down.
    pub open spec fn evolves_to(old: MarketFactory, new: MarketFactory) -> bool {
        &&& old.markets().len() <= new.markets().len()
        &&& forall|m: int|
            0 <= m < old.markets().len() ==> #[trigger] new.option_totals(m).len() == old.option_totals(
                m,
            ).len()
        &&& forall|m: int, j: int|
            0 <= m < old.markets().len() && 0 <= j < old.option_totals(m).len() ==> (#[trigger] old.option_totals(
                m,
            )[j]).0 <= new.option_totals(m)[j].0
        &&& forall|m: int|
            0 <= m < old.markets().len() ==> {
                let a = #[trigger] old.markets()[m];
                let b = new.markets()[m];
                &&& b.market_id == a.market_id
                &&& b.chain_id == a.chain_id
                &&& b.creator == a.creator
                &&& b.options@ == a.options@
                &&& !a.is_active ==> b == a
            }
    }

    /// The record a successful creation writes.
    pub open spec fn new_market_record(
        market_id: u64,
        timestamp: Timestamp,
        creator: AccountOwner,
        params: MarketCreationParams,
    ) -> MarketInfo {
        MarketInfo {
            market_id,
            chain_id: home_chain_of(market_id),
            description: params.description,
            creator,
            options: params.options,
            liquidity: params.initial_liquidity,
            total_bets: Amount(0),
            created_at: timestamp,
            resolved_at: None,
            winning_option: None,
            is_active: true,
        }
    }

    /// A market needs a description and at least two options.
    pub open spec fn creation_accepted(params: MarketCreationParams) -> bool {
        &&& params.options@.len() >= 2
        &&& params.description@.len() > 0
    }

    /// How `market_resolved` answers on this state.
    pub open spec fn resolve_outcome(
        &self,
        resolver: AccountOwner,
        market_id: u64,
        winning_option: u32,
    ) -> Result<(), OddssyncError> {
        if market_id >= self.markets().len() {
            Err(OddssyncError::MarketNotFound)
        } else {
            let m = self.markets()[market_id as int];
            if resolver != m.creator {
                Err(OddssyncError::Unauthorized)
            } else if winning_option >= m.options@.len() {
                Err(OddssyncError::InvalidParameters)
            } else if !m.is_active {
                Err(OddssyncError::BettingNotAllowed)
            } else {
                Ok(())
            }
        }
    }

    /// `m` settled to `winning_option` at `timestamp`.
    pub open spec fn resolved(m: MarketInfo, winning_option: u32, timestamp: Timestamp) -> MarketInfo {
        MarketInfo {
            is_active: false,
            winning_option: Some(winning_option),
            resolved_at: Some(timestamp),
            ..m
        }
    }

    /// How `place_bet` answers on this state: the identifier of the new bet,
    /// or why it is rejected.
    pub open spec fn bet_outcome(&self, params: BetParams) -> Result<u64, OddssyncError> {
        if params.market_id >= self.markets().len() {
            Err(OddssyncError::MarketNotFound)
        } else {
            bet_outcome_on(self.markets()[params.market_id as int], params, self.next_bet_id())
        }
    }

    /// `new` is `old` with `bet` accepted: its stake added to its option and
    /// to its market, and the bet appended to the log and to its bettor's
    /// history.
    pub open spec fn bet_applied(old: MarketFactory, new: MarketFactory, bet: Bet) -> bool {
        let m = bet.market_id as int;
        &&& new.markets() == old.markets().update(m, with_stake_added(old.markets()[m], bet.amount))
        &&& new.option_totals(m) == stake_added_at(old.option_totals(m), bet.option_index as int, bet.amount)
        &&& forall|k: int|
            0 <= k < old.markets().len() && k != m ==> #[trigger] new.option_totals(k)
                == old.option_totals(k)
        &&& new.bets() == old.bets().push(bet)
        &&& new.history(bet.bettor) == old.history(bet.bettor).push(bet)
        &&& forall|o: AccountOwner| o != bet.bettor ==> #[trigger] new.history(o) == old.history(o)
        &&& new.next_market_id() == old.next_market_id()
        &&& new.next_bet_id() == old.next_bet_id() + 1
    }

    /// The bet that `params` describes, placed by `bettor` at `timestamp`.
    pub open spec fn bet_of(bettor: AccountOwner, params: BetParams, timestamp: Timestamp) -> Bet {
        Bet {
            bettor,
            amount: params.amount,
            option_index: params.option_index,
            placed_at: timestamp,
            market_id: params.market_id,
        }
    }

    /// The parameters of a bet.
    pub open spec fn params_of(bet: Bet) -> BetParams {
        BetParams { market_id: bet.market_id, option_index: bet.option_index, amount: bet.amount }
    }

    /// What `market_resolved` does: it answers as `resolve_outcome` says; a
    /// rejection changes nothing, and a success settles that one market.
    pub open spec fn resolve_post(
        old: MarketFactory,
        new: MarketFactory,
        resolver: AccountOwner,
        market_id: u64,
        winning_option: u32,
        timestamp: Timestamp,
        r: Result<(), OddssyncError>,
    ) -> bool {
        &&& r == old.resolve_outcome(resolver, market_id, winning_option)
        &&& r is Err ==> new == old
        &&& r is Ok ==> {
            &&& new.markets() == old.markets().update(
                market_id as int,
                MarketFactory::resolved(old.markets()[market_id as int], winning_option, timestamp),
            )
            &&& forall|m: int| #[trigger] new.option_totals(m) == old.option_totals(m)
            &&& new.bets() == old.bets()
            &&& forall|o: AccountOwner| #[trigger] new.history(o) == old.history(o)
            &&& new.delivered() == old.delivered()
            &&& new.next_market_id() == old.next_market_id()
            &&& new.next_bet_id() == old.next_bet_id()
        }
    }

    /// What `place_bet` does: it answers as `bet_outcome` says; a rejection
    /// changes nothing, and an acceptance records exactly that bet.
    pub open spec fn place_post(
        old: MarketFactory,
        new: MarketFactory,
        bettor: AccountOwner,
        params: BetParams,
        timestamp: Timestamp,
        r: Result<u64, OddssyncError>,
    ) -> bool {
        &&& r == old.bet_outcome(params)
        &&& new.delivered() == old.delivered()
        &&& r is Err ==> new == old
        &&& r is Ok ==> MarketFactory::bet_applied(old, new, MarketFactory::bet_of(bettor, params, timestamp))
    }

    /// What delivering the cross-domain bet `(from_chain, sequence, bet)` does:
    /// a delivery seen before gets the answer it got then and changes nothing;
    /// a new one is placed as a local bet would be, and its answer is logged.
    pub open spec fn cross_chain_post(
        old: MarketFactory,
        new: MarketFactory,
        from_chain: ChainId,
        sequence: u64,
        bet: Bet,
        r: CrossChainReceipt,
    ) -> bool {
        let key = (from_chain, sequence);
        &&& r.to_chain == from_chain
        &&& r.sequence == sequence
        &&& if old.delivered().contains_key(key) {
            &&& r.outcome == old.delivered()[key]
            &&& new == old
        } else {
            &&& r.outcome == old.bet_outcome(MarketFactory::params_of(bet))
            &&& new.delivered() == old.delivered().insert(key, r.outcome)
            &&& r.outcome is Err ==> MarketFactory::ledger_unchanged(old, new)
            &&& r.outcome is Ok ==> MarketFactory::bet_applied(old, new, bet)
        }
    }

    pub fn new() -> (r: MarketFactory)
        ensures
            r.wf(),
            r.ids_left(),
            r.markets() == Seq::<MarketInfo>::empty(),
            r.bets() == Seq::<Bet>::empty(),
            forall|o: AccountOwner| r.history(o) == Seq::<Bet>::empty(),
            r.delivered() == Map::<(ChainId, u64), Result<u64, OddssyncError>>::empty(),
    {
        let r = MarketFactory {
            markets: Vec::new(),
            next_market_id: IdAllocator::new(),
            pool: BettingPool::new(),
            deliveries: Vec::new(),
        };
        assert(r.delivered() =~= Map::<(ChainId, u64), Result<u64, OddssyncError>>::empty());
        r
    }

    /// Whether both identifier counters can still advance.
    pub fn ids_available(&self) -> (r: bool)
        ensures
            r == self.ids_left(),
    {
        self.next_market_id.peek() < u64::MAX && self.pool.peek_next_bet_id() < u64::MAX
    }

    /// The number of markets created so far.
    pub fn market_count(&self) -> (r: u64)
        requires
            self.wf(),
        ensures
            r == self.markets().len(),
    {
        self.next_market_id.peek()
    }

    /// Opens a market: it gets the next market identifier and the home domain
    /// derived from it, starts open with no stake, and is indexed by both.
    pub fn create_market(
        &mut self,
        timestamp: Timestamp,
        creator: AccountOwner,
        params: MarketCreationParams,
    ) -> (r: Result<(u64, ChainId), OddssyncError>)
        requires
            old(self).wf(),
            old(self).ids_left(),
        ensures
            final(self).wf(),
            MarketFactory::evolves_to(*old(self), *final(self)),
            r is Ok <==> MarketFactory::creation_accepted(params),
            r is Err ==> r == Err::<(u64, ChainId), _>(OddssyncError::InvalidParameters) && *final(self) == *old(self),
            r matches Ok((id, chain)) ==> {
                &&& id == old(self).markets().len()
                &&& chain == home_chain_of(id)
                &&& final(self).markets() == old(self).markets().push(
                    MarketFactory::new_market_record(id, timestamp, creator, params),
                )
                &&& final(self).option_totals(id as int) == zero_amounts(params.options@.len())
                &&& forall|m: int|
                    0 <= m < old(self).markets().len() ==> #[trigger] final(self).option_totals(m)
                        == old(self).option_totals(m)
                &&& final(self).bets() == old(self).bets()
                &&& forall|o: AccountOwner| #[trigger] final(self).history(o) == old(self).history(o)
                &&& final(self).delivered() == old(self).delivered()
                &&& final(self).next_market_id() == old(self).next_market_id() + 1
                &&& final(self).next_bet_id() == old(self).next_bet_id()
            },
    {
        if params.options.len() < 2 || params.description.as_str().is_empty() {
            return Err(OddssyncError::InvalidParameters);
        }
        let market_id = self.next_market_id.allocate();
        let chain_id = home_chain(market_id);
        let n = params.options.len();
        let info = MarketInfo {
            market_id,
            chain_id,
            description: params.description,
            creator,
            options: params.options,
            liquidity: params.initial_liquidity,
            total_bets: Amount(0),
            created_at: timestamp,
            resolved_at: None,
            winning_option: None,
            is_active: true,
        };
        self.markets.push(info);
        self.pool.open_market(n);
        proof {
            lemma_sum_zero_amounts(n as nat);
            assert(self.market_consistent(market_id as int));
            assert forall|m: int| 0 <= m < self.markets().len() implies self.market_consistent(m) by {
                if m < old(self).markets().len() {
                    assert(old(self).market_consistent(m));
                }
            }
        }
        Ok((market_id, chain_id))
    }

    /// The position of market `market_id` in the directory, if it exists.
    fn position(&self, market_id: u64) -> (r: Option<usize>)
        ensures
            market_id < self.markets().len() ==> (r matches Some(i) && i == market_id),
            market_id >= self.markets().len() ==> r is None,
    {
        let n = self.markets.len();
        if (market_id as u128) < (n as u128) {
            Some(market_id as usize)
        } else {
            None
        }
    }

    /// The market with identifier `market_id`; absent when there is none.
    pub fn get_market(&self, market_id: u64) -> (r: Option<&MarketInfo>)
        requires
            self.wf(),
        ensures
            market_id < self.markets().len() ==> r == Some(&self.markets()[market_id as int]),
            market_id >= self.markets().len() ==> r is None,
    {
        match self.position(market_id) {
            Some(i) => Some(&self.markets[i]),
            None => None,
        }
    }

    /// The stake per option of market `market_id`; absent when there is no
    /// such market.
    pub fn option_totals_of(&self, market_id: u64) -> (r: Option<&Vec<Amount>>)
        requires
            self.wf(),
        ensures
            market_id < self.markets().len() ==> (r matches Some(v) && v@ == self.option_totals(
                market_id as int,
            )),
            market_id >= self.markets().len() ==> r is None,
    {
        match self.position(market_id) {
            Some(i) => Some(self.pool.totals_of(i)),
            None => None,
        }
    }

    /// The bets of `owner`, in the order they were placed.
    pub fn bets_of(&self, owner: &AccountOwner) -> (r: Vec<Bet>)
        requires
            self.wf(),
        ensures
            r@ == self.history(*owner),
    {
        self.pool.history_of(owner)
    }

    /// The market hosted on `chain`; absent when there is none.
    pub fn get_market_by_chain(&self, chain: &ChainId) -> (r: Option<&MarketInfo>)
        requires
            self.wf(),
        ensures
            r matches Some(info) ==> exists|m: int|
                0 <= m < self.markets().len() && self.markets()[m] == *info
                    && self.markets()[m].chain_id == *chain,
            r is None ==> forall|m: int|
                0 <= m < self.markets().len() ==> self.markets()[m].chain_id != *chain,
    {
        match market_id_of_chain(chain) {
            Some(id) => {
                if let Some(i) = self.position(id) {
                    let info = &self.markets[i];
                    proof {
                        assert(self.market_consistent(i as int));
                        assert(self.markets()[i as int] == *info);
                    }
                    Some(info)
                } else {
                    proof {
                        assert forall|m: int| 0 <= m < self.markets().len() implies self.markets()[m].chain_id != *chain by {
                            assert(self.market_consistent(m));
                            lemma_home_chain_injective(m as u64, id);
                        }
                    }
                    None
                }
            },
            None => {
                proof {
                    assert forall|m: int| 0 <= m < self.markets().len() implies self.markets()[m].chain_id != *chain by {
                        assert(self.market_consistent(m));
                    }
                }
                None
            },
        }
    }

    /// Settles a market to its winning option. Only the market's creator may
    /// do so, once; a rejected call changes nothing. The checks come in this
    /// order: the market exists, the caller created it, the option exists,
    /// the market is still open.
    pub fn market_resolved(
        &mut self,
        resolver: AccountOwner,
        market_id: u64,
        winning_option: u32,
        timestamp: Timestamp,
    ) -> (r: Result<(), OddssyncError>)
        requires
            old(self).wf(),
        ensures
            final(self).wf(),
            MarketFactory::evolves_to(*old(self), *final(self)),
            MarketFactory::resolve_post(
                *old(self),
                *final(self),
                resolver,
                market_id,
                winning_option,
                timestamp,
                r,
            ),
    {
        let i = match self.position(market_id) {
            Some(i) => i,
            None => {
                return Err(OddssyncError::MarketNotFound);
            },
        };
        let market = &self.markets[i];
        if resolver != market.creator {
            return Err(OddssyncError::Unauthorized);
        }
        if winning_option as usize >= market.options.len() {
            return Err(OddssyncError::InvalidParameters);
        }
        if !market.is_active {
            return Err(OddssyncError::BettingNotAllowed);
        }
        let ghost before = self.markets@[i as int];
        proof {
            assert(old(self).market_consistent(i as int));
        }
        self.markets[i].is_active = false;
        self.markets[i].winning_option = Some(winning_option);
        self.markets[i].resolved_at = Some(timestamp);
        proof {
            assert(self.markets@[i as int] == MarketFactory::resolved(before, winning_option, timestamp));
            assert(self.markets() == old(self).markets().update(
                i as int,
                MarketFactory::resolved(before, winning_option, timestamp),
            ));
            assert forall|m: int| 0 <= m < self.markets().len() implies self.market_consistent(m) by {
                assert(old(self).market_consistent(m));
            }
        }
        Ok(())
    }

    /// Accepts a bet or rejects it; a rejected bet changes nothing. The checks
    /// come in this order: the market exists, it is open, the option exists
    /// and the stake is not zero, the running totals stay in range.
    pub fn place_bet(&mut self, bettor: AccountOwner, params: BetParams, timestamp: Timestamp) -> (r:
        Result<u64, OddssyncError>)
        requires
            old(self).wf(),
            old(self).ids_left(),
        ensures
            final(self).wf(),
            MarketFactory::evolves_to(*old(self), *final(self)),
            MarketFactory::place_post(*old(self), *final(self), bettor, params, timestamp, r),
    {
        let i = match self.position(params.market_id) {
            Some(i) => i,
            None => {
                return Err(OddssyncError::MarketNotFound);
            },
        };
        proof {
            assert(self.market_consistent(i as int));
        }
        let r = self.pool.place_bet(&self.markets[i], bettor, params, timestamp);
        if r.is_ok() {
            let total = self.markets[i].total_bets.0 + params.amount.0;
            self.markets[i].total_bets = Amount(total);
        }
        proof {
            if r is Ok {
                let j = params.option_index as int;
                let before = old(self).option_totals(i as int);
                assert(old(self).market_consistent(i as int));
                lemma_entry_le_sum(before, j);
                assert(self.option_totals(i as int) == stake_added_at(before, j, params.amount));
                assert forall|m: int, k: int|
                    0 <= m < old(self).markets().len() && 0 <= k < old(self).option_totals(m).len()
                        implies (#[trigger] old(self).option_totals(m)[k]).0 <= self.option_totals(m)[k].0 by {
                    if m == i && k == j {
                        assert(self.option_totals(m)[k].0 == before[j].0 + params.amount.0);
                    }
                }
                assert(self.counters_wf());
                assert forall|m: int| 0 <= m < self.markets().len() implies self.market_consistent(m) by {
                    assert(old(self).market_consistent(m));
                    if m == i {
                        lemma_sum_update(
                            old(self).option_totals(m),
                            params.option_index as int,
                            Amount((old(self).option_totals(m)[params.option_index as int].0 + params.amount.0) as u128),
                        );
                        lemma_entry_le_sum(old(self).option_totals(m), params.option_index as int);
                    }
                }
            }
        }
        r
    }

    /// Applies a bet that was placed on another domain. Each delivery is
    /// identified by its origin domain and sequence number there: the first
    /// delivery is checked and applied exactly as a local bet, and any later
    /// delivery of the same pair only repeats the first answer. The receipt is
    /// addressed back to the origin domain.
    pub fn process_cross_chain_bet(&mut self, from_chain: ChainId, sequence: u64, bet: Bet) -> (r:
        CrossChainReceipt)
        requires
            old(self).wf(),
            old(self).ids_left(),
        ensures
            final(self).wf(),
            MarketFactory::evolves_to(*old(self), *final(self)),
            MarketFactory::cross_chain_post(*old(self), *final(self), from_chain, sequence, bet, r),
    {
        let n = self.deliveries.len();
        let mut i: usize = 0;
        while i < n
            invariant
                n == self.deliveries@.len(),
                *self == *old(self),
                old(self).wf(),
                i <= n,
                forall|k: int|
                    0 <= k < i ==> delivery_key(#[trigger] self.deliveries@[k]) != (from_chain, sequence),
            decreases n - i,
        {
            let d = &self.deliveries[i];
            if d.from_chain == from_chain && d.sequence == sequence {
                proof {
                    lemma_delivered_at(self.deliveries@, i as int);
                }
                return CrossChainReceipt { to_chain: from_chain, sequence, outcome: d.outcome };
            }
            i = i + 1;
        }
        let params = BetParams {
            market_id: bet.market_id,
            option_index: bet.option_index,
            amount: bet.amount,
        };
        let outcome = self.place_bet(bet.bettor, params, bet.placed_at);
        let ghost placed = *self;
        proof {
            assert(!old(self).delivered().contains_key((from_chain, sequence)));
        }
        self.deliveries.push(Delivery { from_chain, sequence, outcome });
        proof {
            lemma_delivered_push(placed.deliveries@, Delivery { from_chain, sequence, outcome });
            assert(MarketFactory::bet_of(bet.bettor, params, bet.placed_at) == bet);
            assert(forall|m: int| #[trigger] self.option_totals(m) == placed.option_totals(m));
            assert(forall|o: AccountOwner| #[trigger] self.history(o) == placed.history(o));
            assert(self.counters_wf());
            assert forall|m: int| 0 <= m < self.markets().len() implies self.market_consistent(m) by {
                assert(placed.market_consistent(m));
            }
        }
        CrossChainReceipt { to_chain: from_chain, sequence, outcome }
    }
}

} // verus!
