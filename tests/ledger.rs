use oddssync::contract::OddssyncContract;
use oddssync::factory::MarketFactory;
use oddssync::ids::{home_chain, market_id_of_chain};
use oddssync::odds::OddsRatio;
use oddssync::query::QueryRoot;
use oddssync::types::{
    AccountOwner, Amount, Bet, BetParams, ChainId, CryptoHash, MarketCreationParams,
    OddssyncError, OddssyncMessage, OddssyncResponse, Timestamp,
};

fn alice() -> AccountOwner {
    AccountOwner::Address32(CryptoHash(1, 2, 3, 4))
}

fn bob() -> AccountOwner {
    AccountOwner::Reserved(7)
}

fn params(description: &str, options: &[&str], liquidity: u128) -> MarketCreationParams {
    MarketCreationParams {
        description: description.to_string(),
        options: options.iter().map(|o| o.to_string()).collect(),
        initial_liquidity: Amount(liquidity),
    }
}

fn bet(market_id: u64, option_index: u32, amount: u128) -> BetParams {
    BetParams { market_id, option_index, amount: Amount(amount) }
}

fn price(r: Option<OddsRatio>) -> Option<f64> {
    r.map(|o| o.total.0 as f64 / o.option_total.0 as f64)
}

fn yes_no_market(f: &mut MarketFactory) -> u64 {
    let (id, _) = f
        .create_market(Timestamp(10), alice(), params("Will it rain?", &["Yes", "No"], 500))
        .unwrap();
    id
}

fn assert_total_is_sum(f: &MarketFactory, market_id: u64) {
    let total = f.get_market(market_id).unwrap().total_bets.0;
    let sum: u128 = f.option_totals_of(market_id).unwrap().iter().map(|a| a.0).sum();
    assert_eq!(total, sum);
}

#[test]
fn yes_no_scenario() {
    let mut f = MarketFactory::new();
    let id = yes_no_market(&mut f);
    assert_eq!(id, 0);
    let b0 = f.place_bet(bob(), bet(id, 0, 100), Timestamp(11)).unwrap();
    assert_eq!(b0, 0);
    assert_eq!(f.get_market(id).unwrap().total_bets, Amount(100));
    assert_eq!(price(f.calculate_odds(id, 0)), Some(1.0));
    assert_eq!(price(f.calculate_odds(id, 1)), None);
    let b1 = f.place_bet(bob(), bet(id, 1, 300), Timestamp(12)).unwrap();
    assert_eq!(b1, 1);
    assert_eq!(f.get_market(id).unwrap().total_bets, Amount(400));
    assert_eq!(price(f.calculate_odds(id, 0)), Some(4.0));
    let odds1 = price(f.calculate_odds(id, 1)).unwrap();
    assert!((odds1 - 4.0 / 3.0).abs() < 1e-12);
    assert_eq!(f.market_resolved(alice(), id, 0, Timestamp(13)), Ok(()));
    assert_eq!(
        f.place_bet(bob(), bet(id, 1, 5), Timestamp(14)),
        Err(OddssyncError::BettingNotAllowed)
    );
    assert_total_is_sum(&f, id);
}

#[test]
fn odds_are_total_over_option() {
    let mut f = MarketFactory::new();
    let id = yes_no_market(&mut f);
    assert_eq!(f.calculate_odds(id, 0), None);
    f.place_bet(bob(), bet(id, 0, 30), Timestamp(11)).unwrap();
    f.place_bet(alice(), bet(id, 1, 10), Timestamp(12)).unwrap();
    assert_eq!(
        f.calculate_odds(id, 0),
        Some(OddsRatio { total: Amount(40), option_total: Amount(30) })
    );
    let a = price(f.calculate_odds(id, 0)).unwrap();
    assert!((a - 40.0 / 30.0).abs() < 1e-12);
    assert_eq!(price(f.calculate_odds(id, 1)), Some(4.0));
    assert_eq!(f.calculate_odds(id, 2), None);
    assert_eq!(f.calculate_odds(id + 1, 0), None);
}

#[test]
fn zero_stake_market_has_no_odds() {
    let mut f = MarketFactory::new();
    let id = yes_no_market(&mut f);
    assert_eq!(f.calculate_odds(id, 0), None);
    assert_eq!(f.calculate_odds(id, 1), None);
}

#[test]
fn creation_rejects_bad_parameters() {
    let mut f = MarketFactory::new();
    assert_eq!(
        f.create_market(Timestamp(1), alice(), params("One option", &["Only"], 0)),
        Err(OddssyncError::InvalidParameters)
    );
    assert_eq!(
        f.create_market(Timestamp(1), alice(), params("", &["Yes", "No"], 0)),
        Err(OddssyncError::InvalidParameters)
    );
    assert_eq!(f.market_count(), 0);
    assert!(f.get_market(0).is_none());
}

#[test]
fn creation_assigns_ids_and_domains() {
    let mut f = MarketFactory::new();
    let (a, chain_a) = f
        .create_market(Timestamp(5), alice(), params("First", &["A", "B"], 9))
        .unwrap();
    let (b, chain_b) = f
        .create_market(Timestamp(6), bob(), params("Second", &["A", "B", "C"], 0))
        .unwrap();
    assert_eq!((a, b), (0, 1));
    assert_eq!(chain_a, ChainId(CryptoHash(0, 0, 0, 0)));
    assert_eq!(chain_b, ChainId(CryptoHash(0x0100_0000_0000_0000, 0, 0, 0)));
    let m = f.get_market(b).unwrap();
    assert_eq!(m.market_id, 1);
    assert_eq!(m.description, "Second");
    assert_eq!(m.options, vec!["A", "B", "C"]);
    assert_eq!(m.creator, bob());
    assert_eq!(m.liquidity, Amount(0));
    assert_eq!(m.total_bets, Amount(0));
    assert_eq!(m.created_at, Timestamp(6));
    assert!(m.is_active);
    assert_eq!(m.winning_option, None);
    assert_eq!(m.resolved_at, None);
    assert_eq!(f.get_market_by_chain(&chain_b).unwrap().market_id, 1);
    assert!(f.get_market_by_chain(&home_chain(2)).is_none());
    assert!(f.get_market_by_chain(&ChainId(CryptoHash(0, 1, 0, 0))).is_none());
    assert_eq!(f.option_totals_of(b).unwrap(), &vec![Amount(0); 3]);
}

#[test]
fn home_chain_holds_id_little_endian() {
    let c = home_chain(0x0102_0304_0506_0708);
    assert_eq!(c, ChainId(CryptoHash(0x0807_0605_0403_0201, 0, 0, 0)));
    assert_eq!(market_id_of_chain(&c), Some(0x0102_0304_0506_0708));
    assert_eq!(market_id_of_chain(&ChainId(CryptoHash(5, 0, 0, 1))), None);
}

#[test]
fn bet_on_unknown_market_changes_nothing() {
    let mut f = MarketFactory::new();
    let id = yes_no_market(&mut f);
    f.place_bet(bob(), bet(id, 0, 10), Timestamp(11)).unwrap();
    assert_eq!(
        f.place_bet(bob(), bet(id + 1, 0, 10), Timestamp(12)),
        Err(OddssyncError::MarketNotFound)
    );
    assert_eq!(f.bets_of(&bob()).len(), 1);
    assert_eq!(f.get_market(id).unwrap().total_bets, Amount(10));
    assert_eq!(f.place_bet(bob(), bet(id, 0, 1), Timestamp(13)), Ok(1));
}

#[test]
fn bet_on_unknown_option_changes_nothing() {
    let mut f = MarketFactory::new();
    let id = yes_no_market(&mut f);
    assert_eq!(
        f.place_bet(bob(), bet(id, 2, 10), Timestamp(11)),
        Err(OddssyncError::InvalidParameters)
    );
    assert_eq!(f.option_totals_of(id).unwrap(), &vec![Amount(0), Amount(0)]);
    assert!(f.bets_of(&bob()).is_empty());
    assert_eq!(f.place_bet(bob(), bet(id, 1, 10), Timestamp(12)), Ok(0));
}

#[test]
fn zero_stake_is_rejected() {
    let mut f = MarketFactory::new();
    let id = yes_no_market(&mut f);
    assert_eq!(
        f.place_bet(bob(), bet(id, 0, 0), Timestamp(11)),
        Err(OddssyncError::InvalidParameters)
    );
}

#[test]
fn overflow_is_reported_and_changes_nothing() {
    let mut f = MarketFactory::new();
    let id = yes_no_market(&mut f);
    f.place_bet(bob(), bet(id, 0, u128::MAX), Timestamp(11)).unwrap();
    assert_eq!(
        f.place_bet(alice(), bet(id, 1, 1), Timestamp(12)),
        Err(OddssyncError::AmountOverflow)
    );
    assert_eq!(f.get_market(id).unwrap().total_bets, Amount(u128::MAX));
    assert_eq!(
        f.option_totals_of(id).unwrap(),
        &vec![Amount(u128::MAX), Amount(0)]
    );
    assert!(f.bets_of(&alice()).is_empty());
    assert_total_is_sum(&f, id);
}

#[test]
fn totals_track_every_bet() {
    let mut f = MarketFactory::new();
    let id = f
        .create_market(Timestamp(1), alice(), params("Three", &["A", "B", "C"], 0))
        .unwrap()
        .0;
    let stakes: [(u32, u128); 6] = [(0, 5), (2, 7), (2, 1), (1, 40), (0, 3), (2, 9)];
    for (k, (option, amount)) in stakes.iter().enumerate() {
        let who = if k % 2 == 0 { alice() } else { bob() };
        assert_eq!(f.place_bet(who, bet(id, *option, *amount), Timestamp(2)), Ok(k as u64));
        assert_total_is_sum(&f, id);
    }
    assert_eq!(
        f.option_totals_of(id).unwrap(),
        &vec![Amount(8), Amount(40), Amount(17)]
    );
    assert_eq!(f.get_market(id).unwrap().total_bets, Amount(65));
}

#[test]
fn history_keeps_each_bettors_order() {
    let mut f = MarketFactory::new();
    let id = yes_no_market(&mut f);
    f.place_bet(bob(), bet(id, 1, 3), Timestamp(20)).unwrap();
    f.place_bet(alice(), bet(id, 0, 4), Timestamp(21)).unwrap();
    f.place_bet(bob(), bet(id, 0, 5), Timestamp(22)).unwrap();
    let mine = f.bets_of(&bob());
    assert_eq!(
        mine,
        vec![
            Bet { bettor: bob(), amount: Amount(3), option_index: 1, placed_at: Timestamp(20), market_id: id },
            Bet { bettor: bob(), amount: Amount(5), option_index: 0, placed_at: Timestamp(22), market_id: id },
        ]
    );
    assert_eq!(f.bets_of(&alice()).len(), 1);
    assert!(f.bets_of(&AccountOwner::Address20(1, 2, 3)).is_empty());
}

#[test]
fn resolution_checks_in_order() {
    let mut f = MarketFactory::new();
    let id = yes_no_market(&mut f);
    assert_eq!(
        f.market_resolved(alice(), id + 1, 0, Timestamp(30)),
        Err(OddssyncError::MarketNotFound)
    );
    assert_eq!(
        f.market_resolved(bob(), id, 0, Timestamp(30)),
        Err(OddssyncError::Unauthorized)
    );
    assert_eq!(
        f.market_resolved(alice(), id, 2, Timestamp(30)),
        Err(OddssyncError::InvalidParameters)
    );
    assert!(f.get_market(id).unwrap().is_active);
    assert_eq!(f.market_resolved(alice(), id, 1, Timestamp(31)), Ok(()));
    let m = f.get_market(id).unwrap();
    assert!(!m.is_active);
    assert_eq!(m.winning_option, Some(1));
    assert_eq!(m.resolved_at, Some(Timestamp(31)));
}

#[test]
fn second_resolution_fails_and_first_stays() {
    let mut f = MarketFactory::new();
    let id = yes_no_market(&mut f);
    assert_eq!(f.market_resolved(alice(), id, 0, Timestamp(40)), Ok(()));
    assert_eq!(
        f.market_resolved(alice(), id, 1, Timestamp(41)),
        Err(OddssyncError::BettingNotAllowed)
    );
    let m = f.get_market(id).unwrap();
    assert_eq!(m.winning_option, Some(0));
    assert_eq!(m.resolved_at, Some(Timestamp(40)));
}

#[test]
fn resolved_market_refuses_every_bet() {
    let mut f = MarketFactory::new();
    let id = yes_no_market(&mut f);
    f.place_bet(bob(), bet(id, 0, 8), Timestamp(11)).unwrap();
    f.market_resolved(alice(), id, 0, Timestamp(12)).unwrap();
    for (option, amount) in [(0u32, 1u128), (1, 100), (5, 1), (0, 0)] {
        assert_eq!(
            f.place_bet(alice(), bet(id, option, amount), Timestamp(13)),
            Err(OddssyncError::BettingNotAllowed)
        );
    }
    assert_eq!(f.get_market(id).unwrap().total_bets, Amount(8));
}

#[test]
fn cross_chain_delivery_is_applied_once() {
    let mut f = MarketFactory::new();
    let id = yes_no_market(&mut f);
    let origin = home_chain(99);
    let b = Bet { bettor: bob(), amount: Amount(25), option_index: 1, placed_at: Timestamp(50), market_id: id };
    let first = f.process_cross_chain_bet(origin, 7, b);
    assert_eq!(first.to_chain, origin);
    assert_eq!(first.sequence, 7);
    assert_eq!(first.outcome, Ok(0));
    let second = f.process_cross_chain_bet(origin, 7, b);
    assert_eq!(second.outcome, Ok(0));
    assert_eq!(f.bets_of(&bob()), vec![b]);
    assert_eq!(f.get_market(id).unwrap().total_bets, Amount(25));
    let third = f.process_cross_chain_bet(origin, 8, b);
    assert_eq!(third.outcome, Ok(1));
    let other_origin = f.process_cross_chain_bet(home_chain(98), 7, b);
    assert_eq!(other_origin.outcome, Ok(2));
    assert_eq!(f.get_market(id).unwrap().total_bets, Amount(75));
    assert_total_is_sum(&f, id);
}

#[test]
fn rejected_cross_chain_bet_is_answered_again_the_same_way() {
    let mut f = MarketFactory::new();
    let id = yes_no_market(&mut f);
    let origin = home_chain(42);
    let b = Bet { bettor: bob(), amount: Amount(5), option_index: 0, placed_at: Timestamp(1), market_id: id + 3 };
    let first = f.process_cross_chain_bet(origin, 1, b);
    assert_eq!(first.outcome, Err(OddssyncError::MarketNotFound));
    assert_eq!(first.to_chain, origin);
    let again = f.process_cross_chain_bet(origin, 1, b);
    assert_eq!(again.outcome, Err(OddssyncError::MarketNotFound));
    f.market_resolved(alice(), id, 0, Timestamp(2)).unwrap();
    let closed = Bet { market_id: id, ..b };
    assert_eq!(
        f.process_cross_chain_bet(origin, 2, closed).outcome,
        Err(OddssyncError::BettingNotAllowed)
    );
    assert!(f.bets_of(&bob()).is_empty());
}

#[test]
fn dispatcher_runs_operations() {
    let mut c = OddssyncContract::new();
    let created = c.execute_operation(
        Some(alice()),
        Timestamp(1),
        Amount(0),
        OddssyncMessage::CreateMarket(params("Rain?", &["Yes", "No"], 0)),
    );
    assert_eq!(
        created,
        Ok(OddssyncResponse::MarketCreated { market_id: 0, chain_id: home_chain(0) })
    );
    assert_eq!(
        c.execute_operation(Some(bob()), Timestamp(2), Amount(1000), OddssyncMessage::PlaceBet(bet(0, 1, 100))),
        Ok(OddssyncResponse::BetPlaced { bet_id: 0 })
    );
    assert_eq!(
        c.execute_operation(Some(bob()), Timestamp(3), Amount(99), OddssyncMessage::PlaceBet(bet(0, 1, 100))),
        Err(OddssyncError::InsufficientBalance)
    );
    assert_eq!(
        c.execute_operation(None, Timestamp(3), Amount(1000), OddssyncMessage::PlaceBet(bet(0, 1, 100))),
        Err(OddssyncError::Unauthenticated)
    );
    assert_eq!(
        c.execute_operation(
            Some(bob()),
            Timestamp(4),
            Amount(0),
            OddssyncMessage::ResolveMarket { market_id: 0, winning_option: 1 }
        ),
        Err(OddssyncError::Unauthorized)
    );
    assert_eq!(
        c.execute_operation(
            Some(alice()),
            Timestamp(4),
            Amount(0),
            OddssyncMessage::ResolveMarket { market_id: 0, winning_option: 1 }
        ),
        Ok(OddssyncResponse::MarketResolved { market_id: 0 })
    );
    let as_operation = OddssyncMessage::CrossChainBet {
        from_chain: home_chain(5),
        sequence: 0,
        bet: Bet { bettor: bob(), amount: Amount(1), option_index: 0, placed_at: Timestamp(5), market_id: 0 },
    };
    assert_eq!(
        c.execute_operation(Some(bob()), Timestamp(5), Amount(10), as_operation),
        Err(OddssyncError::InvalidParameters)
    );
    assert_eq!(c.state.get_market(0).unwrap().total_bets, Amount(100));
}

#[test]
fn dispatcher_handles_messages() {
    let mut c = OddssyncContract::new();
    c.execute_operation(
        Some(alice()),
        Timestamp(1),
        Amount(0),
        OddssyncMessage::CreateMarket(params("Rain?", &["Yes", "No"], 0)),
    )
    .unwrap();
    let msg = || OddssyncMessage::CrossChainBet {
        from_chain: home_chain(3),
        sequence: 11,
        bet: Bet { bettor: bob(), amount: Amount(6), option_index: 0, placed_at: Timestamp(2), market_id: 0 },
    };
    let first = c.execute_message(msg()).unwrap();
    let second = c.execute_message(msg()).unwrap();
    assert_eq!(first.outcome, Ok(0));
    assert_eq!(second.outcome, Ok(0));
    assert_eq!(c.state.bets_of(&bob()).len(), 1);
    assert!(c.execute_message(OddssyncMessage::PlaceBet(bet(0, 0, 1))).is_none());
    assert_eq!(c.state.get_market(0).unwrap().total_bets, Amount(6));
}

#[test]
fn queries_read_the_state() {
    let mut f = MarketFactory::new();
    for k in 0..4u64 {
        f.create_market(Timestamp(k), alice(), params("Market", &["Up", "Down", "Flat"], 0))
            .unwrap();
    }
    f.market_resolved(alice(), 1, 0, Timestamp(9)).unwrap();
    f.market_resolved(alice(), 3, 2, Timestamp(9)).unwrap();
    f.place_bet(bob(), bet(2, 1, 30), Timestamp(10)).unwrap();
    f.place_bet(bob(), bet(2, 2, 10), Timestamp(11)).unwrap();
    let q = QueryRoot::new(&f);
    assert_eq!(q.markets(), vec![0, 2]);
    assert_eq!(q.market(2).unwrap().total_bets, Amount(40));
    assert!(q.market(4).is_none());
    assert_eq!(q.my_bets(&bob()).len(), 2);
    let odds = q.live_odds(2);
    assert_eq!(odds.len(), 3);
    assert_eq!(odds[0].option_name, "Up");
    assert_eq!(odds[0].odds, None);
    assert_eq!(odds[0].total_bet, Amount(0));
    assert_eq!(odds[1].option_index, 1);
    assert_eq!(price(odds[1].odds).map(|p| (p * 3.0).round()), Some(4.0));
    assert_eq!(odds[2].odds, Some(OddsRatio { total: Amount(40), option_total: Amount(10) }));
    assert_eq!(odds[2].total_bet, Amount(10));
    assert!(q.live_odds(9).is_empty());
}

#[test]
fn amount_checked_addition() {
    assert_eq!(Amount(2).try_add(Amount(3)), Some(Amount(5)));
    assert_eq!(Amount(u128::MAX).try_add(Amount(1)), None);
    assert_eq!(Amount::from_attos(7).to_attos(), 7);
    assert_eq!(Timestamp::from_micros(9).micros(), 9);
}
