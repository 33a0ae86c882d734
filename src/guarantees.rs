//! Statements that hold across calls: each is proved from the contracts of
//! the functions it speaks of.
use vstd::prelude::*;
use crate::factory::MarketFactory;
use crate::odds::OddsRatio;
use crate::pool::{lemma_entry_le_sum, sum_amounts};
use crate::types::{AccountOwner, Bet, BetParams, ChainId, CrossChainReceipt, OddssyncError, Timestamp};

verus! {

/// In every well-formed state, and so after any sequence of operations, a
/// market's running total is the sum of its per-option totals.
pub proof fn lemma_total_is_sum_of_options(f: MarketFactory, market_id: u64)
    requires
        f.wf(),
        market_id < f.markets().len(),
    ensures
        f.markets()[market_id as int].total_bets.0 == sum_amounts(f.option_totals(market_id as int)),
{
    assert(f.market_consistent(market_id as int));
}

/// A bet on a market that does not exist fails with `MarketNotFound` and
/// leaves the state as it was.
pub proof fn lemma_bet_on_unknown_market(
    before: MarketFactory,
    after: MarketFactory,
    bettor: AccountOwner,
    params: BetParams,
    timestamp: Timestamp,
    r: Result<u64, OddssyncError>,
)
    requires
        before.wf(),
        params.market_id >= before.markets().len(),
        MarketFactory::place_post(before, after, bettor, params, timestamp, r),
    ensures
        r == Err::<u64, OddssyncError>(OddssyncError::MarketNotFound),
        after == before,
{
}

/// A bet on an option the market does not have fails with
/// `InvalidParameters` and leaves the state as it was. (On a resolved market
/// the resolution is reported first, as `BettingNotAllowed`.)
pub proof fn lemma_bet_on_unknown_option(
    before: MarketFactory,
    after: MarketFactory,
    bettor: AccountOwner,
    params: BetParams,
    timestamp: Timestamp,
    r: Result<u64, OddssyncError>,
)
    requires
        before.wf(),
        params.market_id < before.markets().len(),
        before.markets()[params.market_id as int].is_active,
        params.option_index >= before.markets()[params.market_id as int].options@.len(),
        MarketFactory::place_post(before, after, bettor, params, timestamp, r),
    ensures
        r == Err::<u64, OddssyncError>(OddssyncError::InvalidParameters),
        after == before,
{
}

pub proof fn lemma_evolves_to_refl(f: MarketFactory)
    ensures
        MarketFactory::evolves_to(f, f),
{
}

pub proof fn lemma_evolves_to_trans(a: MarketFactory, b: MarketFactory, c: MarketFactory)
    requires
        MarketFactory::evolves_to(a, b),
        MarketFactory::evolves_to(b, c),
    ensures
        MarketFactory::evolves_to(a, c),
{
    assert forall|m: int| 0 <= m < a.markets().len() implies {
        let x = #[trigger] a.markets()[m];
        let z = c.markets()[m];
        &&& z.market_id == x.market_id
        &&& z.chain_id == x.chain_id
        &&& z.creator == x.creator
        &&& z.options@ == x.options@
        &&& !x.is_active ==> z == x
    } by {
        let y = b.markets()[m];
        assert(y == b.markets()[m]);
    }
}

/// Once a market is resolved, every later bet on it fails with
/// `BettingNotAllowed` and changes nothing: `later` is any state reached from
/// the resolved one (every operation's contract gives `evolves_to`).
pub proof fn lemma_resolved_market_refuses_bets(
    s0: MarketFactory,
    s1: MarketFactory,
    later: MarketFactory,
    after: MarketFactory,
    resolver: AccountOwner,
    market_id: u64,
    winning_option: u32,
    resolved_at: Timestamp,
    bettor: AccountOwner,
    params: BetParams,
    timestamp: Timestamp,
    r: Result<u64, OddssyncError>,
)
    requires
        s0.wf(),
        MarketFactory::resolve_post(s0, s1, resolver, market_id, winning_option, resolved_at, Ok(())),
        MarketFactory::evolves_to(s1, later),
        later.wf(),
        params.market_id == market_id,
        MarketFactory::place_post(later, after, bettor, params, timestamp, r),
    ensures
        r == Err::<u64, OddssyncError>(OddssyncError::BettingNotAllowed),
        after == later,
{
    assert(!s1.markets()[market_id as int].is_active);
    assert(!later.markets()[market_id as int].is_active);
}

/// Resolving a market a second time fails, and the first resolution stays.
pub proof fn lemma_second_resolution_fails(
    s0: MarketFactory,
    s1: MarketFactory,
    s2: MarketFactory,
    market_id: u64,
    resolver1: AccountOwner,
    winning1: u32,
    at1: Timestamp,
    resolver2: AccountOwner,
    winning2: u32,
    at2: Timestamp,
    r2: Result<(), OddssyncError>,
)
    requires
        s0.wf(),
        MarketFactory::resolve_post(s0, s1, resolver1, market_id, winning1, at1, Ok(())),
        MarketFactory::resolve_post(s1, s2, resolver2, market_id, winning2, at2, r2),
    ensures
        r2 is Err,
        s2 == s1,
        s2.markets()[market_id as int].winning_option == Some(winning1),
        s2.markets()[market_id as int].resolved_at == Some(at1),
        !s2.markets()[market_id as int].is_active,
{
}

/// The price of an option: absent while the market holds no stake; exactly
/// one (total over itself) when all stake is on that option; otherwise the
/// market's total over the option's total.
pub proof fn lemma_odds_cases(f: MarketFactory, market_id: u64, option_index: u32)
    requires
        f.wf(),
        market_id < f.markets().len(),
        option_index < f.markets()[market_id as int].options@.len(),
    ensures
        ({
            let total = f.markets()[market_id as int].total_bets;
            let stake = f.option_totals(market_id as int)[option_index as int];
            &&& total.0 == 0 ==> f.odds_of(market_id, option_index) is None
            &&& stake.0 == 0 ==> f.odds_of(market_id, option_index) is None
            &&& stake.0 > 0 ==> f.odds_of(market_id, option_index) == Some(
                OddsRatio { total, option_total: stake },
            )
            &&& stake == total && total.0 > 0 ==> f.odds_of(market_id, option_index) == Some(
                OddsRatio { total, option_total: total },
            )
        }),
{
    assert(f.market_consistent(market_id as int));
    lemma_entry_le_sum(f.option_totals(market_id as int), option_index as int);
}

/// Delivering the same cross-domain bet twice (same origin domain and
/// sequence number) records it at most once: the second delivery changes
/// nothing and repeats the first answer, and the bet log grows by the one
/// bet if the first delivery accepted it, by nothing otherwise.
pub proof fn lemma_redelivery_records_once(
    s0: MarketFactory,
    s1: MarketFactory,
    s2: MarketFactory,
    from_chain: ChainId,
    sequence: u64,
    bet: Bet,
    again: Bet,
    r1: CrossChainReceipt,
    r2: CrossChainReceipt,
)
    requires
        s0.wf(),
        MarketFactory::cross_chain_post(s0, s1, from_chain, sequence, bet, r1),
        MarketFactory::cross_chain_post(s1, s2, from_chain, sequence, again, r2),
    ensures
        s2 == s1,
        r2.outcome == r1.outcome,
        !s0.delivered().contains_key((from_chain, sequence)) ==> s2.bets() == (if r1.outcome is Ok {
            s0.bets().push(bet)
        } else {
            s0.bets()
        }),
        s2.bets().len() <= s0.bets().len() + 1,
{
    assert(s1.delivered().contains_key((from_chain, sequence)));
}

} // verus!
