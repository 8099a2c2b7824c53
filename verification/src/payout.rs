//! What has to move, and between which custodies, once an operation has been
//! accepted; and how a claimed prize is split between the house and the
//! winner. The library moves nothing itself: its caller carries the
//! transfers out, together with the change of state or not at all.

use vstd::prelude::*;

use crate::address::Address;

verus! {

/// The share of a claimed prize that the house keeps, in percent.
pub const HOUSE_FEE_PERCENT: u64 = 5;

/// Where value is held.
#[derive(Clone, Copy, Debug, PartialEq, Eq)]
pub enum Custody {
    /// The own balance of a depositor or winner.
    Holder(Address),
    /// The stakes of the active round.
    RoundVault,
    /// The prizes that were drawn and not yet claimed.
    PrizeVault,
    /// The account that collects the house fee.
    FeeAccount,
    /// The account that the administrator names for a withdrawal.
    AdminAccount,
}

/// One movement of value that the caller has to carry out.
#[derive(Clone, Copy, Debug, PartialEq, Eq)]
pub struct Transfer {
    pub from: Custody,
    pub to: Custody,
    pub amount: u64,
}

/// The two legs of a claimed prize.
#[derive(Clone, Copy, Debug, PartialEq, Eq)]
pub struct Payout {
    /// The house's leg; none where the fee is zero.
    pub fee_leg: Option<Transfer>,
    /// The winner's leg.
    pub payout_leg: Transfer,
}

/// The house fee on `amount` at `percent` percent, rounded down.
pub open spec fn fee_of(amount: u64, percent: u64) -> nat {
    (amount as nat * percent as nat) / 100
}

/// What is left for the winner of `amount` after the fee.
pub open spec fn payout_of(amount: u64, percent: u64) -> int {
    amount - fee_of(amount, percent)
}

/// The legs by which a prize of `amount` leaves the prize vault for
/// `claimant`: the fee to the fee account, if there is a fee, and the rest
/// to the claimant.
pub open spec fn payout_for(claimant: Address, amount: u64, percent: u64) -> Payout {
    Payout {
        fee_leg: if fee_of(amount, percent) > 0 {
            Some(
                Transfer {
                    from: Custody::PrizeVault,
                    to: Custody::FeeAccount,
                    amount: fee_of(amount, percent) as u64,
                },
            )
        } else {
            None
        },
        payout_leg: Transfer {
            from: Custody::PrizeVault,
            to: Custody::Holder(claimant),
            amount: payout_of(amount, percent) as u64,
        },
    }
}

impl Payout {
    /// What the house gets.
    pub open spec fn fee(self) -> nat {
        match self.fee_leg {
            Some(leg) => leg.amount as nat,
            None => 0,
        }
    }

    /// What the winner gets.
    pub open spec fn payout(self) -> nat {
        self.payout_leg.amount as nat
    }

    /// The amount of the house's leg; zero where there is none.
    pub fn fee_amount(&self) -> (fee: u64)
        ensures
            fee == self.fee(),
    {
        match self.fee_leg {
            Some(leg) => leg.amount,
            None => 0,
        }
    }

    /// The amount of the winner's leg.
    pub fn payout_amount(&self) -> (payout: u64)
        ensures
            payout == self.payout(),
    {
        self.payout_leg.amount
    }
}

/// At no more than a hundred percent the fee and the rest add up to the
/// amount exactly; the fee is never more than the stated percentage of the
/// amount, and falls short of it by less than one unit.
pub proof fn lemma_split_is_exact(amount: u64, percent: u64)
    requires
        percent <= 100,
    ensures
        fee_of(amount, percent) + payout_of(amount, percent) == amount,
        0 <= fee_of(amount, percent) <= amount,
        0 <= payout_of(amount, percent) <= amount,
        fee_of(amount, percent) * 100 <= amount * percent,
        amount * percent < (fee_of(amount, percent) + 1) * 100,
        percent == 0 ==> fee_of(amount, percent) == 0,
        percent == 100 ==> fee_of(amount, percent) == amount,
{
    let a = amount as nat;
    let p = percent as nat;
    assert(a * p <= a * 100) by (nonlinear_arith)
        requires
            p <= 100,
    ;
    assert(a * 0 == 0) by (nonlinear_arith);
}

/// The legs of a claimed prize carry the fee and the rest, and together the
/// whole prize.
pub proof fn lemma_payout_is_exact(claimant: Address, amount: u64, percent: u64)
    requires
        percent <= 100,
    ensures
        payout_for(claimant, amount, percent).fee() == fee_of(amount, percent),
        payout_for(claimant, amount, percent).payout() == payout_of(amount, percent),
        payout_for(claimant, amount, percent).fee() + payout_for(
            claimant,
            amount,
            percent,
        ).payout() == amount,
{
    lemma_split_is_exact(amount, percent);
}

/// Splits a claimed prize of `amount` between the house, at `fee_percent`
/// percent rounded down, and `claimant`.
pub fn split_prize(claimant: Address, amount: u64, fee_percent: u64) -> (p: Payout)
    requires
        fee_percent <= 100,
    ensures
        p == payout_for(claimant, amount, fee_percent),
        p.fee() + p.payout() == amount,
{
    proof {
        lemma_split_is_exact(amount, fee_percent);
    }
    let product: u128 = (amount as u128) * (fee_percent as u128);
    let fee: u64 = (product / 100) as u64;
    let payout: u64 = amount - fee;
    let fee_leg = if fee > 0 {
        Some(Transfer { from: Custody::PrizeVault, to: Custody::FeeAccount, amount: fee })
    } else {
        None
    };
    Payout {
        fee_leg,
        payout_leg: Transfer {
            from: Custody::PrizeVault,
            to: Custody::Holder(claimant),
            amount: payout,
        },
    }
}

} // verus!
