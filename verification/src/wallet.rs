//! The bankroll: what the player holds and what is at risk in the round.

use vstd::prelude::*;

verus! {

/// A balance and the amount staked on the round in play.
#[derive(Debug)]
pub struct Wallet {
    balance: usize,
    bet: usize,
}

impl Wallet {
    /// The money that is not at risk.
    pub closed spec fn funds(&self) -> nat {
        self.balance as nat
    }

    /// The money staked on the round in play.
    pub closed spec fn stake(&self) -> nat {
        self.bet as nat
    }

    /// Balance and stake together.
    pub open spec fn total(&self) -> nat {
        self.funds() + self.stake()
    }

    /// Balance and stake together are a `usize`.
    pub open spec fn wf(&self) -> bool {
        self.total() <= usize::MAX
    }

    /// A wallet that holds `starting_money` and has nothing staked.
    pub fn new(starting_money: usize) -> (wallet: Wallet)
        ensures
            wallet.wf(),
            wallet.funds() == starting_money,
            wallet.stake() == 0,
    {
        Wallet { balance: starting_money, bet: 0 }
    }

    /// The money that is not at risk.
    pub fn balance(&self) -> (amount: usize)
        ensures
            amount == self.funds(),
    {
        self.balance
    }

    /// The money staked on the round in play.
    pub fn bet(&self) -> (amount: usize)
        ensures
            amount == self.stake(),
    {
        self.bet
    }

    /// Moves `amount` from the balance to the stake, if the balance covers
    /// it. Otherwise nothing changes. Either way balance and stake together
    /// stay what they were.
    pub fn place_bet(&mut self, amount: usize) -> (placed: Result<(), ()>)
        requires
            old(self).wf(),
        ensures
            placed is Ok <==> old(self).funds() >= amount,
            placed is Ok ==> final(self).funds() == old(self).funds() - amount
                && final(self).stake() == old(self).stake() + amount,
            placed is Err ==> final(self).funds() == old(self).funds() && final(self).stake()
                == old(self).stake(),
            final(self).total() == old(self).total(),
            final(self).wf(),
    {
        if self.balance >= amount {
            self.balance -= amount;
            self.bet += amount;
            Ok(())
        } else {
            Err(())
        }
    }

    /// Stakes the current stake once more: `place_bet` with the stake as
    /// the amount.
    pub fn double(&mut self) -> (placed: Result<(), ()>)
        requires
            old(self).wf(),
        ensures
            placed is Ok <==> old(self).funds() >= old(self).stake(),
            placed is Ok ==> final(self).funds() == old(self).funds() - old(self).stake()
                && final(self).stake() == 2 * old(self).stake(),
            placed is Err ==> final(self).funds() == old(self).funds() && final(self).stake()
                == old(self).stake(),
            final(self).total() == old(self).total(),
            final(self).wf(),
    {
        let amount: usize = self.bet;
        self.place_bet(amount)
    }

    /// Tells whether the balance can take `multiplier` times the stake.
    pub fn can_pay(&self, multiplier: usize) -> (fits: bool)
        ensures
            fits == (self.funds() + multiplier * self.stake() <= usize::MAX),
    {
        match multiplier.checked_mul(self.bet) {
            Some(credit) => self.balance.checked_add(credit).is_some(),
            None => false,
        }
    }

    /// Credits `multiplier` times the stake to the balance and clears the
    /// stake. With multiplier 0 the stake is lost, with 1 it comes back,
    /// with more the player gains.
    pub fn pay_out(&mut self, multiplier: usize)
        requires
            old(self).funds() + multiplier * old(self).stake() <= usize::MAX,
        ensures
            final(self).funds() == old(self).funds() + multiplier * old(self).stake(),
            final(self).stake() == 0,
            final(self).total() == old(self).total() + (multiplier - 1) * old(self).stake(),
            final(self).wf(),
    {
        assert((multiplier - 1) * self.bet == multiplier * self.bet - self.bet)
            by (nonlinear_arith);
        self.balance += multiplier * self.bet;
        self.bet = 0;
    }

    /// Clears the stake; the balance stays as it is.
    pub fn lose(&mut self)
        ensures
            final(self).funds() == old(self).funds(),
            final(self).stake() == 0,
            final(self).total() == old(self).total() - old(self).stake(),
            final(self).wf(),
    {
        self.bet = 0;
    }
}

/// What is staked is only ever lost: balance and stake together go down at
/// `lose`, by the stake, and at `pay_out` only with multiplier 0 and a
/// stake that is not 0; `pay_out` with multiplier 1 leaves them as they
/// were, and with a larger one they grow.
pub proof fn total_after_settlement(before: Wallet, multiplier: usize)
    ensures
        before.total() + (multiplier - 1) * before.stake() < before.total() <==> multiplier == 0
            && before.stake() > 0,
        multiplier == 1 ==> before.total() + (multiplier - 1) * before.stake() == before.total(),
        multiplier >= 2 ==> before.total() + (multiplier - 1) * before.stake() >= before.total()
            + before.stake(),
{
    assert((multiplier - 1) * before.stake() < 0 <==> multiplier == 0 && before.stake() > 0)
        by (nonlinear_arith);
    assert(multiplier >= 2 ==> (multiplier - 1) * before.stake() >= before.stake())
        by (nonlinear_arith);
    assert(multiplier == 1 ==> (multiplier - 1) * before.stake() == 0) by (nonlinear_arith);
}

} // verus!
