use vstd::prelude::*;
use crate::ids::IdAllocator;
use crate::types::{AccountOwner, Amount, Bet, BetParams, MarketInfo, OddssyncError, Timestamp};

verus! {

/// The sum of a sequence of amounts, in attos.
pub open spec fn sum_amounts(s: Seq<Amount>) -> int
    decreases s.len(),
{
    if s.len() == 0 {
        0
    } else {
        sum_amounts(s.drop_last()) + s.last().0
    }
}

/// `n` zero amounts.
pub open spec fn zero_amounts(n: nat) -> Seq<Amount> {
    Seq::new(n, |i: int| Amount(0))
}

pub proof fn lemma_sum_zero_amounts(n: nat)
    ensures
        sum_amounts(zero_amounts(n)) == 0,
    decreases n,
{
    if n > 0 {
        assert(zero_amounts(n).drop_last() == zero_amounts((n - 1) as nat));
        lemma_sum_zero_amounts((n - 1) as nat);
    }
}

/// Every entry is at most the sum.
pub proof fn lemma_entry_le_sum(s: Seq<Amount>, j: int)
    requires
        0 <= j < s.len(),
    ensures
        0 <= s[j].0 <= sum_amounts(s),
    decreases s.len(),
{
    lemma_sum_nonneg(s.drop_last());
    if j < s.len() - 1 {
        lemma_entry_le_sum(s.drop_last(), j);
    }
}

pub proof fn lemma_sum_nonneg(s: Seq<Amount>)
    ensures
        sum_amounts(s) >= 0,
    decreases s.len(),
{
    if s.len() > 0 {
        lemma_sum_nonneg(s.drop_last());
    }
}

/// Raising one entry by `a` raises the sum by `a`.
pub proof fn lemma_sum_update(s: Seq<Amount>, j: int, v: Amount)
    requires
        0 <= j < s.len(),
    ensures
        sum_amounts(s.update(j, v)) == sum_amounts(s) - s[j].0 + v.0,
    decreases s.len(),
{
    let t = s.update(j, v);
    if j == s.len() - 1 {
        assert(t.drop_last() == s.drop_last());
    } else {
        assert(t.drop_last() == s.drop_last().update(j, v));
        lemma_sum_update(s.drop_last(), j, v);
    }
}

/// The bets of one principal, in the order they were placed.
#[derive(Debug)]
pub struct UserBets {
    pub owner: AccountOwner,
    pub bets: Vec<Bet>,
}

/// The history of `owner` in a table of per-principal entries.
pub open spec fn history_in(entries: Seq<UserBets>, owner: AccountOwner) -> Seq<Bet> {
    if exists|i: int| 0 <= i < entries.len() && entries[i].owner == owner {
        let i = choose|i: int| 0 <= i < entries.len() && entries[i].owner == owner;
        entries[i].bets@
    } else {
        Seq::empty()
    }
}

pub open spec fn owners_unique(entries: Seq<UserBets>) -> bool {
    forall|i: int, k: int|
        0 <= i < entries.len() && 0 <= k < entries.len() && i != k ==> entries[i].owner
            != entries[k].owner
}

pub proof fn lemma_history_at(entries: Seq<UserBets>, i: int)
    requires
        owners_unique(entries),
        0 <= i < entries.len(),
    ensures
        history_in(entries, entries[i].owner) == entries[i].bets@,
{
    let o = entries[i].owner;
    assert(0 <= i < entries.len() && entries[i].owner == o);
    let c = choose|c: int| 0 <= c < entries.len() && entries[c].owner == o;
    assert(c == i);
}

/// Whether a bet with `params` would be accepted on `market`, and if not, why;
/// `next_id` is the identifier an accepted bet gets.
pub open spec fn bet_outcome_on(market: MarketInfo, params: BetParams, next_id: u64) -> Result<
    u64,
    OddssyncError,
> {
    if !market.is_active {
        Err(OddssyncError::BettingNotAllowed)
    } else if params.option_index >= market.options@.len() || params.amount.0 == 0 {
        Err(OddssyncError::InvalidParameters)
    } else if market.total_bets.0 + params.amount.0 > u128::MAX {
        Err(OddssyncError::AmountOverflow)
    } else {
        Ok(next_id)
    }
}

/// `s` with entry `j` raised by `a`.
pub open spec fn stake_added_at(s: Seq<Amount>, j: int, a: Amount) -> Seq<Amount> {
    s.update(j, Amount((s[j].0 + a.0) as u128))
}

/// The betting ledger: stake per option of each market, the bet log and each
/// principal's history.
#[derive(Debug)]
pub struct BettingPool {
    /// Market id -> stake per option.
    market_bets: Vec<Vec<Amount>>,
    /// Principal -> that principal's bets.
    user_bets: Vec<UserBets>,
    /// Bet id -> bet.
    all_bets: Vec<Bet>,
    next_bet_id: IdAllocator,
}

impl BettingPool {
    /// The number of markets that have a stake table.
    pub closed spec fn market_count(&self) -> nat {
        self.market_bets@.len()
    }

    /// Stake per option of market `m`.
    pub closed spec fn option_totals(&self, m: int) -> Seq<Amount> {
        self.market_bets@[m]@
    }

    /// The bet log; a bet's identifier is its position.
    pub closed spec fn bets(&self) -> Seq<Bet> {
        self.all_bets@
    }

    /// The bets of `owner`, in the order they were placed.
    pub closed spec fn history(&self, owner: AccountOwner) -> Seq<Bet> {
        history_in(self.user_bets@, owner)
    }

    pub closed spec fn next_bet_id(&self) -> u64 {
        self.next_bet_id.next_id()
    }

    pub closed spec fn wf(&self) -> bool {
        &&& self.next_bet_id.next_id() == self.all_bets@.len()
        &&& owners_unique(self.user_bets@)
    }

    pub fn new() -> (r: BettingPool)
        ensures
            r.wf(),
            r.market_count() == 0,
            r.bets() == Seq::<Bet>::empty(),
            forall|o: AccountOwner| r.history(o) == Seq::<Bet>::empty(),
            r.next_bet_id() == 0,
    {
        BettingPool {
            market_bets: Vec::new(),
            user_bets: Vec::new(),
            all_bets: Vec::new(),
            next_bet_id: IdAllocator::new(),
        }
    }

    pub fn peek_next_bet_id(&self) -> (r: u64)
        ensures
            r == self.next_bet_id(),
    {
        self.next_bet_id.peek()
    }

    /// Opens a stake table of `n` zero entries for the next market.
    pub fn open_market(&mut self, n: usize)
        requires
            old(self).wf(),
        ensures
            final(self).wf(),
            final(self).market_count() == old(self).market_count() + 1,
            forall|m: int|
                0 <= m < old(self).market_count() ==> final(self).option_totals(m) == old(
                    self,
                ).option_totals(m),
            final(self).option_totals(old(self).market_count() as int) == zero_amounts(n as nat),
            final(self).bets() == old(self).bets(),
            forall|o: AccountOwner| final(self).history(o) == old(self).history(o),
            final(self).next_bet_id() == old(self).next_bet_id(),
    {
        let mut row: Vec<Amount> = Vec::new();
        let mut k: usize = 0;
        while k < n
            invariant
                k <= n,
                row@ == zero_amounts(k as nat),
            decreases n - k,
        {
            row.push(Amount(0));
            k = k + 1;
            assert(row@ == zero_amounts(k as nat));
        }
        self.market_bets.push(row);
    }

    /// The stake per option of market `m`.
    pub fn totals_of(&self, m: usize) -> (r: &Vec<Amount>)
        requires
            m < self.market_count(),
        ensures
            r@ == self.option_totals(m as int),
    {
        &self.market_bets[m]
    }

    /// A copy of the bets of `owner`, in the order they were placed.
    pub fn history_of(&self, owner: &AccountOwner) -> (r: Vec<Bet>)
        requires
            self.wf(),
        ensures
            r@ == self.history(*owner),
    {
        let n = self.user_bets.len();
        let mut i: usize = 0;
        while i < n
            invariant
                n == self.user_bets@.len(),
                owners_unique(self.user_bets@),
                i <= n,
                forall|k: int| 0 <= k < i ==> self.user_bets@[k].owner != *owner,
            decreases n - i,
        {
            if self.user_bets[i].owner == *owner {
                proof {
                    lemma_history_at(self.user_bets@, i as int);
                }
                let src = &self.user_bets[i].bets;
                let mut out: Vec<Bet> = Vec::new();
                let m = src.len();
                let mut k: usize = 0;
                while k < m
                    invariant
                        m == src@.len(),
                        k <= m,
                        out@ == src@.subrange(0, k as int),
                    decreases m - k,
                {
                    out.push(src[k]);
                    k = k + 1;
                    assert(out@ == src@.subrange(0, k as int));
                }
                assert(out@ == src@);
                return out;
            }
            i = i + 1;
        }
        Vec::new()
    }

    /// `new` is `old` with `bet` accepted: appended to the log and to its
    /// bettor's history, and its amount added to its option's total.
    pub open spec fn bet_recorded(old: BettingPool, new: BettingPool, bet: Bet) -> bool {
        &&& new.bets() == old.bets().push(bet)
        &&& new.next_bet_id() == old.next_bet_id() + 1
        &&& new.market_count() == old.market_count()
        &&& forall|m: int|
            0 <= m < old.market_count() && m != bet.market_id ==> new.option_totals(m)
                == old.option_totals(m)
        &&& new.option_totals(bet.market_id as int) == stake_added_at(
            old.option_totals(bet.market_id as int),
            bet.option_index as int,
            bet.amount,
        )
        &&& new.history(bet.bettor) == old.history(bet.bettor).push(bet)
        &&& forall|o: AccountOwner| o != bet.bettor ==> new.history(o) == old.history(o)
    }

    /// Appends `bet` to the history of its bettor.
    fn record_in_history(&mut self, bet: Bet)
        requires
            owners_unique(old(self).user_bets@),
        ensures
            owners_unique(final(self).user_bets@),
            final(self).history(bet.bettor) == old(self).history(bet.bettor).push(bet),
            forall|o: AccountOwner| o != bet.bettor ==> final(self).history(o) == old(self).history(o),
            final(self).market_bets == old(self).market_bets,
            final(self).all_bets == old(self).all_bets,
            final(self).next_bet_id == old(self).next_bet_id,
    {
        let ghost before = self.user_bets@;
        let n = self.user_bets.len();
        let mut i: usize = 0;
        while i < n
            invariant
                n == self.user_bets@.len(),
                self.user_bets@ == before,
                before == old(self).user_bets@,
                owners_unique(before),
                self.market_bets == old(self).market_bets,
                self.all_bets == old(self).all_bets,
                self.next_bet_id == old(self).next_bet_id,
                i <= n,
                forall|k: int| 0 <= k < i ==> before[k].owner != bet.bettor,
            decreases n - i,
        {
            if self.user_bets[i].owner == bet.bettor {
                proof {
                    lemma_history_at(before, i as int);
                }
                self.user_bets[i].bets.push(bet);
                proof {
                    let after = self.user_bets@;
                    assert(before == old(self).user_bets@);
                    assert(after[i as int].owner == before[i as int].owner);
                    assert(after[i as int].bets@ == before[i as int].bets@.push(bet));
                    assert(forall|k: int| 0 <= k < after.len() && k != i ==> after[k] == before[k]);
                    assert(owners_unique(after));
                    lemma_history_at(after, i as int);
                    assert forall|o: AccountOwner| o != bet.bettor implies history_in(after, o)
                        == history_in(before, o) by {
                        if exists|k: int| 0 <= k < before.len() && before[k].owner == o {
                            let k = choose|k: int| 0 <= k < before.len() && before[k].owner == o;
                            lemma_history_at(before, k);
                            lemma_history_at(after, k);
                        }
                    }
                }
                return;
            }
            i = i + 1;
        }
        let mut bets: Vec<Bet> = Vec::new();
        bets.push(bet);
        self.user_bets.push(UserBets { owner: bet.bettor, bets });
        proof {
            let after = self.user_bets@;
            assert(owners_unique(after));
            lemma_history_at(after, n as int);
            assert(history_in(before, bet.bettor) == Seq::<Bet>::empty());
            assert(bets@ == Seq::<Bet>::empty().push(bet));
            assert forall|o: AccountOwner| o != bet.bettor implies history_in(after, o)
                == history_in(before, o) by {
                if exists|k: int| 0 <= k < before.len() && before[k].owner == o {
                    let k = choose|k: int| 0 <= k < before.len() && before[k].owner == o;
                    lemma_history_at(before, k);
                    lemma_history_at(after, k);
                }
            }
        }
    }

    /// Accepts a bet on `market` or rejects it; a rejected bet changes nothing.
    /// The checks come in this order: the market is open, the option exists
    /// and the stake is not zero, the running totals stay in range. The
    /// market's own running total is the caller's to raise.
    pub fn place_bet(
        &mut self,
        market: &MarketInfo,
        bettor: AccountOwner,
        params: BetParams,
        timestamp: Timestamp,
    ) -> (r: Result<u64, OddssyncError>)
        requires
            old(self).wf(),
            market.wf(),
            params.market_id == market.market_id,
            params.market_id < old(self).market_count(),
            old(self).option_totals(params.market_id as int).len() == market.options@.len(),
            sum_amounts(old(self).option_totals(params.market_id as int)) == market.total_bets.0,
            old(self).next_bet_id() < u64::MAX,
        ensures
            r == bet_outcome_on(*market, params, old(self).next_bet_id()),
            r is Err ==> *final(self) == *old(self),
            r is Ok ==> {
                &&& final(self).wf()
                &&& BettingPool::bet_recorded(
                    *old(self),
                    *final(self),
                    Bet {
                        bettor,
                        amount: params.amount,
                        option_index: params.option_index,
                        placed_at: timestamp,
                        market_id: params.market_id,
                    },
                )
            },
    {
        if !market.is_active {
            return Err(OddssyncError::BettingNotAllowed);
        }
        if params.option_index as usize >= market.options.len() || params.amount.0 == 0 {
            return Err(OddssyncError::InvalidParameters);
        }
        let n_markets = self.market_bets.len();
        assert(params.market_id < n_markets);
        let id = params.market_id as usize;
        let j = params.option_index as usize;
        let ghost totals = self.option_totals(id as int);
        let option_total = self.market_bets[id][j];
        proof {
            lemma_entry_le_sum(totals, j as int);
        }
        let new_option_total = match option_total.try_add(params.amount) {
            Some(a) => a,
            None => {
                return Err(OddssyncError::AmountOverflow);
            },
        };
        if market.total_bets.try_add(params.amount).is_none() {
            return Err(OddssyncError::AmountOverflow);
        }
        let bet_id = self.next_bet_id.allocate();
        let bet = Bet {
            bettor,
            amount: params.amount,
            option_index: params.option_index,
            placed_at: timestamp,
            market_id: params.market_id,
        };
        self.market_bets[id].set(j, new_option_total);
        self.record_in_history(bet);
        let ghost mid = *self;
        self.all_bets.push(bet);
        proof {
            assert(forall|o: AccountOwner| #[trigger] self.history(o) == mid.history(o));
            assert(self.option_totals(id as int) == stake_added_at(totals, j as int, params.amount));
        }
        Ok(bet_id)
    }
}

} // verus!
