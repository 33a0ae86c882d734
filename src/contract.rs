use vstd::prelude::*;
use crate::factory::MarketFactory;
use crate::ids::home_chain_of;
use crate::types::{
    AccountOwner, Amount, CrossChainReceipt, OddssyncError, OddssyncMessage, OddssyncResponse,
    Timestamp,
};

verus! {

/// The application's entry point: it decides each operation and message on
/// the state it owns. What only the runtime knows (the authenticated caller,
/// the time, the caller's balance) is handed in as plain values.
#[derive(Debug)]
pub struct OddssyncContract {
    pub state: MarketFactory,
}

impl OddssyncContract {
    pub open spec fn wf(&self) -> bool {
        &&& self.state.wf()
        &&& self.state.ids_left()
    }

    pub fn new() -> (r: OddssyncContract)
        ensures
            r.wf(),
            r.state.markets().len() == 0,
            r.state.bets().len() == 0,
    {
        OddssyncContract { state: MarketFactory::new() }
    }

    /// Whether both identifier counters can still advance.
    pub fn ids_available(&self) -> (r: bool)
        ensures
            r == self.state.ids_left(),
    {
        self.state.ids_available()
    }

    /// Runs one operation submitted by `signer` at time `now`; `balance` is
    /// the caller's spendable balance. A rejected operation changes nothing.
    /// A cross-domain bet is a message, not an operation, and is refused here.
    pub fn execute_operation(
        &mut self,
        signer: Option<AccountOwner>,
        now: Timestamp,
        balance: Amount,
        operation: OddssyncMessage,
    ) -> (r: Result<OddssyncResponse, OddssyncError>)
        requires
            old(self).state.wf(),
            old(self).state.ids_left(),
        ensures
            final(self).state.wf(),
            MarketFactory::evolves_to(old(self).state, final(self).state),
            final(self).state.delivered() == old(self).state.delivered(),
            r is Err ==> final(self).state == old(self).state,
            operation is CrossChainBet ==> r == Err::<OddssyncResponse, _>(
                OddssyncError::InvalidParameters,
            ),
            operation !is CrossChainBet && signer is None ==> r == Err::<OddssyncResponse, _>(
                OddssyncError::Unauthenticated,
            ),
            signer matches Some(caller) ==> match operation {
                OddssyncMessage::CreateMarket(params) => {
                    &&& r is Ok <==> MarketFactory::creation_accepted(params)
                    &&& r is Err ==> r == Err::<OddssyncResponse, _>(OddssyncError::InvalidParameters)
                    &&& r matches Ok(resp) ==> {
                        let id = old(self).state.markets().len() as u64;
                        &&& resp == OddssyncResponse::MarketCreated {
                            market_id: id,
                            chain_id: home_chain_of(id),
                        }
                        &&& final(self).state.markets() == old(self).state.markets().push(
                            MarketFactory::new_market_record(id, now, caller, params),
                        )
                        &&& final(self).state.bets() == old(self).state.bets()
                    }
                },
                OddssyncMessage::PlaceBet(params) => if balance.0 < params.amount.0 {
                    r == Err::<OddssyncResponse, _>(OddssyncError::InsufficientBalance)
                } else {
                    &&& r == match old(self).state.bet_outcome(params) {
                        Ok(bet_id) => Ok(OddssyncResponse::BetPlaced { bet_id }),
                        Err(e) => Err(e),
                    }
                    &&& r is Ok ==> MarketFactory::bet_applied(
                        old(self).state,
                        final(self).state,
                        MarketFactory::bet_of(caller, params, now),
                    )
                },
                OddssyncMessage::ResolveMarket { market_id, winning_option } => {
                    &&& r == match old(self).state.resolve_outcome(caller, market_id, winning_option) {
                        Ok(_) => Ok(OddssyncResponse::MarketResolved { market_id }),
                        Err(e) => Err(e),
                    }
                    &&& r is Ok ==> final(self).state.markets() == old(self).state.markets().update(
                        market_id as int,
                        MarketFactory::resolved(
                            old(self).state.markets()[market_id as int],
                            winning_option,
                            now,
                        ),
                    )
                    &&& r is Ok ==> final(self).state.bets() == old(self).state.bets()
                },
                OddssyncMessage::CrossChainBet { .. } => true,
            },
    {
        match operation {
            OddssyncMessage::CreateMarket(params) => {
                let creator = match signer {
                    Some(s) => s,
                    None => {
                        return Err(OddssyncError::Unauthenticated);
                    },
                };
                match self.state.create_market(now, creator, params) {
                    Ok((market_id, chain_id)) => Ok(
                        OddssyncResponse::MarketCreated { market_id, chain_id },
                    ),
                    Err(e) => Err(e),
                }
            },
            OddssyncMessage::PlaceBet(params) => {
                let bettor = match signer {
                    Some(s) => s,
                    None => {
                        return Err(OddssyncError::Unauthenticated);
                    },
                };
                if balance.0 < params.amount.0 {
                    return Err(OddssyncError::InsufficientBalance);
                }
                match self.state.place_bet(bettor, params, now) {
                    Ok(bet_id) => Ok(OddssyncResponse::BetPlaced { bet_id }),
                    Err(e) => Err(e),
                }
            },
            OddssyncMessage::ResolveMarket { market_id, winning_option } => {
                let resolver = match signer {
                    Some(s) => s,
                    None => {
                        return Err(OddssyncError::Unauthenticated);
                    },
                };
                match self.state.market_resolved(resolver, market_id, winning_option, now) {
                    Ok(()) => Ok(OddssyncResponse::MarketResolved { market_id }),
                    Err(e) => Err(e),
                }
            },
            OddssyncMessage::CrossChainBet { .. } => Err(OddssyncError::InvalidParameters),
        }
    }

    /// Handles a message from another domain. A cross-domain bet is applied
    /// at most once per delivery key and answered with a receipt for its
    /// origin; other messages are ignored.
    pub fn execute_message(&mut self, message: OddssyncMessage) -> (r: Option<CrossChainReceipt>)
        requires
            old(self).state.wf(),
            old(self).state.ids_left(),
        ensures
            final(self).state.wf(),
            MarketFactory::evolves_to(old(self).state, final(self).state),
            match message {
                OddssyncMessage::CrossChainBet { from_chain, sequence, bet } => {
                    r matches Some(receipt) && MarketFactory::cross_chain_post(
                        old(self).state,
                        final(self).state,
                        from_chain,
                        sequence,
                        bet,
                        receipt,
                    )
                },
                _ => r is None && final(self).state == old(self).state,
            },
    {
        match message {
            OddssyncMessage::CrossChainBet { from_chain, sequence, bet } => {
                Some(self.state.process_cross_chain_bet(from_chain, sequence, bet))
            },
            _ => None,
        }
    }
}

} // verus!
