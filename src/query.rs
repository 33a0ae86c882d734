use vstd::prelude::*;
use crate::factory::MarketFactory;
use crate::odds::OddsRatio;
use crate::types::{AccountOwner, Amount, Bet, MarketInfo};

verus! {

/// The identifiers of the open markets among `ms`, in order.
pub open spec fn active_ids(ms: Seq<MarketInfo>) -> Seq<u64>
    decreases ms.len(),
{
    if ms.len() == 0 {
        Seq::empty()
    } else {
        let rest = active_ids(ms.drop_last());
        if ms.last().is_active {
            rest.push(ms.last().market_id)
        } else {
            rest
        }
    }
}

/// How one option of a market stands.
#[derive(Clone, Debug)]
pub struct Odds {
    pub option_index: u32,
    pub option_name: String,
    /// The price of the option; absent while nothing backs it.
    pub odds: Option<OddsRatio>,
    pub total_bet: Amount,
}

/// The number of options that `live_odds` lists for a market with `n`
/// options: those that a `u32` index reaches.
pub open spec fn listed_options(n: nat) -> nat {
    if n <= u32::MAX as nat + 1 {
        n
    } else {
        u32::MAX as nat + 1
    }
}

/// The read-only interface over the state: what a query may see, and no way
/// to change it.
pub struct QueryRoot<'a> {
    pub state: &'a MarketFactory,
}

impl<'a> QueryRoot<'a> {
    pub fn new(state: &'a MarketFactory) -> (r: QueryRoot<'a>)
        ensures
            r.state == state,
    {
        QueryRoot { state }
    }

    /// The identifiers of all open markets, in increasing order.
    pub fn markets(&self) -> (r: Vec<u64>)
        requires
            self.state.wf(),
        ensures
            r@ == active_ids(self.state.markets()),
    {
        let n = self.state.market_count();
        let mut out: Vec<u64> = Vec::new();
        let mut id: u64 = 0;
        while id < n
            invariant
                self.state.wf(),
                n == self.state.markets().len(),
                id <= n,
                out@ == active_ids(self.state.markets().subrange(0, id as int)),
            decreases n - id,
        {
            let ghost ms = self.state.markets();
            assert(ms.subrange(0, id + 1).drop_last() == ms.subrange(0, id as int));
            match self.state.get_market(id) {
                Some(m) => {
                    if m.is_active {
                        out.push(m.market_id);
                    }
                },
                None => {},
            }
            id = id + 1;
        }
        assert(self.state.markets().subrange(0, n as int) == self.state.markets());
        out
    }

    /// The market with identifier `market_id`; absent when there is none.
    pub fn market(&self, market_id: u64) -> (r: Option<&'a MarketInfo>)
        requires
            self.state.wf(),
        ensures
            market_id < self.state.markets().len() ==> r == Some(
                &self.state.markets()[market_id as int],
            ),
            market_id >= self.state.markets().len() ==> r is None,
    {
        self.state.get_market(market_id)
    }

    /// The bets of `owner`, in the order they were placed.
    pub fn my_bets(&self, owner: &AccountOwner) -> (r: Vec<Bet>)
        requires
            self.state.wf(),
        ensures
            r@ == self.state.history(*owner),
    {
        self.state.bets_of(owner)
    }

    /// Each option of a market with its stake and its price; empty for an
    /// unknown market.
    pub fn live_odds(&self, market_id: u64) -> (r: Vec<Odds>)
        requires
            self.state.wf(),
        ensures
            market_id >= self.state.markets().len() ==> r@.len() == 0,
            market_id < self.state.markets().len() ==> {
                let info = self.state.markets()[market_id as int];
                let totals = self.state.option_totals(market_id as int);
                &&& r@.len() == listed_options(info.options@.len())
                &&& forall|k: int|
                    0 <= k < r@.len() ==> {
                        &&& (#[trigger] r@[k]).option_index == k
                        &&& r@[k].option_name@ == info.options@[k]@
                        &&& r@[k].total_bet == totals[k]
                        &&& r@[k].odds == self.state.odds_of(market_id, k as u32)
                    }
            },
    {
        let mut out: Vec<Odds> = Vec::new();
        let market = match self.state.get_market(market_id) {
            Some(m) => m,
            None => {
                return out;
            },
        };
        let totals = match self.state.option_totals_of(market_id) {
            Some(t) => t,
            None => {
                return out;
            },
        };
        proof {
            assert(self.state.market_consistent(market_id as int));
        }
        let n = market.options.len();
        let mut k: usize = 0;
        while k < n && k as u64 <= u32::MAX as u64
            invariant
                self.state.wf(),
                market_id < self.state.markets().len(),
                *market == self.state.markets()[market_id as int],
                totals@ == self.state.option_totals(market_id as int),
                n == market.options@.len(),
                totals@.len() == n,
                k <= n,
                k <= u32::MAX as nat + 1,
                out@.len() == k,
                forall|j: int|
                    0 <= j < k ==> {
                        &&& (#[trigger] out@[j]).option_index == j
                        &&& out@[j].option_name@ == market.options@[j]@
                        &&& out@[j].total_bet == totals@[j]
                        &&& out@[j].odds == self.state.odds_of(market_id, j as u32)
                    },
            decreases n - k,
        {
            let i = k as u32;
            let odds = self.state.calculate_odds(market_id, i);
            out.push(
                Odds {
                    option_index: i,
                    option_name: market.options[k].clone(),
                    odds,
                    total_bet: totals[k],
                },
            );
            k = k + 1;
        }
        out
    }
}

} // verus!
