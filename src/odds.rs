use vstd::prelude::*;
use crate::factory::MarketFactory;
use crate::types::Amount;

verus! {

/// The price of an option as the ratio `total / option_total`: the market's
/// whole stake over the stake on that option. This is a plain relative-scarcity
/// price, not a market-making curve. When all stake is on one option the two
/// parts are equal and the price is exactly one.
#[derive(Clone, Copy, Debug, PartialEq, Eq, Structural)]
pub struct OddsRatio {
    pub total: Amount,
    pub option_total: Amount,
}

/// The price that the given totals support: absent when either is zero, since
/// there is then nothing to price from.
pub open spec fn odds_from(total: Amount, option_total: Amount) -> Option<OddsRatio> {
    if total.0 == 0 || option_total.0 == 0 {
        None
    } else {
        Some(OddsRatio { total, option_total })
    }
}

pub fn odds_from_totals(total: Amount, option_total: Amount) -> (r: Option<OddsRatio>)
    ensures
        r == odds_from(total, option_total),
{
    if total.0 == 0 || option_total.0 == 0 {
        None
    } else {
        Some(OddsRatio { total, option_total })
    }
}

impl MarketFactory {
    /// The price of option `option_index` of market `market_id`: absent for an
    /// unknown market or option, or when no stake backs it.
    pub open spec fn odds_of(&self, market_id: u64, option_index: u32) -> Option<OddsRatio> {
        if market_id >= self.markets().len() || option_index >= self.option_totals(
            market_id as int,
        ).len() {
            None
        } else {
            odds_from(
                self.markets()[market_id as int].total_bets,
                self.option_totals(market_id as int)[option_index as int],
            )
        }
    }

    pub fn calculate_odds(&self, market_id: u64, option_index: u32) -> (r: Option<OddsRatio>)
        requires
            self.wf(),
        ensures
            r == self.odds_of(market_id, option_index),
    {
        let market = match self.get_market(market_id) {
            Some(m) => m,
            None => {
                return None;
            },
        };
        let totals = match self.option_totals_of(market_id) {
            Some(t) => t,
            None => {
                return None;
            },
        };
        if option_index as usize >= totals.len() {
            return None;
        }
        odds_from_totals(market.total_bets, totals[option_index as usize])
    }
}

} // verus!
