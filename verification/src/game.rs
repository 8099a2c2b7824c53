//! The operations of the game. Each one checks before it changes anything:
//! a refused operation leaves the configuration, the round and the registry
//! as they were. An accepted one returns the transfers that belong to it.

use vstd::prelude::*;

use crate::access::{admin_check, require_admin, require_claimant, Config};
use crate::address::Address;
use crate::error::ErrorCode;
use crate::ledger::{RoundInfo, RoundView};
use crate::payout::{fee_of, payout_for, split_prize, Custody, Payout, Transfer};
use crate::registry::{Winners, WinnersView};

verus! {

/// Whether the game can be initialized with `owner` as its administrator:
/// not twice, and not with the null address.
pub open spec fn initialize_outcome(config: Config, owner: Address) -> Result<(), ErrorCode> {
    if config.is_initialized() {
        Err(ErrorCode::AlreadyInitialized)
    } else if owner.is_null() {
        Err(ErrorCode::Unauthorized)
    } else {
        Ok(())
    }
}

/// What a deposit of `amount` by `user` returns: the refusal of the ledger,
/// or the transfer of `amount` from the depositor into the round vault.
pub open spec fn deposit_outcome(round: RoundView, user: Address, amount: u64) -> Result<
    Transfer,
    ErrorCode,
> {
    match round.record_outcome(amount) {
        Ok(_) => Ok(
            Transfer { from: Custody::Holder(user), to: Custody::RoundVault, amount: amount },
        ),
        Err(e) => Err(e),
    }
}

/// What drawing `winner` on behalf of `caller` returns. The checks come in
/// this order, and the first that fails decides: the caller is the
/// administrator, the round is open, it has deposits, the winner is one of
/// its depositors, the winner's claim stays within 64 bits. Then the whole
/// pot moves from the round vault to the prize vault.
pub open spec fn draw_outcome(
    config: Config,
    round: RoundView,
    winners: WinnersView,
    caller: Address,
    winner: Address,
) -> Result<Transfer, ErrorCode> {
    if caller != config.owner {
        Err(ErrorCode::Unauthorized)
    } else if !round.is_round_open {
        Err(ErrorCode::RoundClosed)
    } else if round.deposits.len() == 0 {
        Err(ErrorCode::NoDeposits)
    } else if !round.holds(winner) {
        Err(ErrorCode::InvalidWinner)
    } else if winners.prize_of(winner) + round.total_deposits > u64::MAX {
        Err(ErrorCode::Overflow)
    } else {
        Ok(
            Transfer {
                from: Custody::RoundVault,
                to: Custody::PrizeVault,
                amount: round.total_deposits,
            },
        )
    }
}

/// The number of the round that follows round `n`.
pub open spec fn next_round(n: u64) -> u64 {
    if n == u64::MAX {
        0
    } else {
        (n + 1) as u64
    }
}

/// What a claim by `user` returns: `NoPrize` for one without a record, else
/// the legs of the recorded prize.
pub open spec fn claim_outcome(winners: WinnersView, user: Address, fee_percent: u64) -> Result<
    Payout,
    ErrorCode,
> {
    if !winners.has_prize(user) {
        Err(ErrorCode::NoPrize)
    } else {
        Ok(payout_for(user, winners.prize_of(user) as u64, fee_percent))
    }
}

/// What a withdrawal of `amount` asked by `caller` returns: the transfer
/// from the prize vault to the administrator's account, for the
/// administrator alone.
pub open spec fn withdraw_outcome(config: Config, caller: Address, amount: u64) -> Result<
    Transfer,
    ErrorCode,
> {
    if caller != config.owner {
        Err(ErrorCode::Unauthorized)
    } else {
        Ok(Transfer { from: Custody::PrizeVault, to: Custody::AdminAccount, amount: amount })
    }
}

/// A draw of someone who made no deposit in the round is refused, whoever
/// asks and whatever the round holds; where the administrator asks and the
/// round is open and has deposits, it is refused as `InvalidWinner`.
pub proof fn lemma_draw_needs_depositor(
    config: Config,
    round: RoundView,
    winners: WinnersView,
    caller: Address,
    winner: Address,
)
    requires
        !round.holds(winner),
    ensures
        draw_outcome(config, round, winners, caller, winner) is Err,
        caller == config.owner && round.is_round_open && round.deposits.len() > 0
            ==> draw_outcome(config, round, winners, caller, winner) == Err::<
            Transfer,
            ErrorCode,
        >(ErrorCode::InvalidWinner),
{
}

/// Nobody but the administrator draws, withdraws or hands the administration
/// over.
pub proof fn lemma_admin_only(
    config: Config,
    round: RoundView,
    winners: WinnersView,
    caller: Address,
    winner: Address,
    amount: u64,
)
    requires
        caller != config.owner,
    ensures
        draw_outcome(config, round, winners, caller, winner) == Err::<Transfer, ErrorCode>(
            ErrorCode::Unauthorized,
        ),
        withdraw_outcome(config, caller, amount) == Err::<Transfer, ErrorCode>(
            ErrorCode::Unauthorized,
        ),
        admin_check(config, caller) == Err::<(), ErrorCode>(ErrorCode::Unauthorized),
{
}

/// An accepted draw moves exactly the pot, and the pot is not empty.
pub proof fn lemma_draw_moves_the_pot(
    config: Config,
    round: RoundView,
    winners: WinnersView,
    caller: Address,
    winner: Address,
)
    requires
        round.wf(),
        draw_outcome(config, round, winners, caller, winner) is Ok,
    ensures
        draw_outcome(config, round, winners, caller, winner)->Ok_0.amount == round.total_deposits,
        round.total_deposits > 0,
        round.total_deposits >= round.stake_of(winner) > 0,
{
    crate::ledger::lemma_len_within_sum(round.deposits);
    crate::ledger::lemma_stake_within_sum(round.deposits, round.position_of(winner));
}

/// An accepted draw leaves a valid registry, in which the winner may claim
/// the pot on top of what was on record and everybody else what they could
/// claim before.
pub proof fn lemma_draw_credits_the_winner(
    config: Config,
    round: RoundView,
    winners: WinnersView,
    caller: Address,
    winner: Address,
    other: Address,
)
    requires
        round.wf(),
        winners.wf(),
        draw_outcome(config, round, winners, caller, winner) is Ok,
        other != winner,
    ensures
        winners.credited(winner, round.total_deposits).wf(),
        winners.credited(winner, round.total_deposits).prize_of(winner) == winners.prize_of(winner)
            + round.total_deposits,
        winners.credited(winner, round.total_deposits).prize_of(other) == winners.prize_of(other),
{
    crate::ledger::lemma_len_within_sum(round.deposits);
    winners.lemma_credited(winner, round.total_deposits);
    winners.lemma_credited_keeps_others(winner, round.total_deposits, other);
}

/// A prize is claimed once: after a claim, accepted or refused, the next
/// claim of the same winner finds no prize.
pub proof fn lemma_claim_once(winners: WinnersView, user: Address, fee_percent: u64)
    requires
        winners.wf(),
    ensures
        claim_outcome(winners.without(user), user, fee_percent) == Err::<Payout, ErrorCode>(
            ErrorCode::NoPrize,
        ),
{
    winners.lemma_without(user);
}

/// The legs of an accepted claim add up to the recorded prize, at any fee
/// of no more than a hundred percent; the house's leg is the fee rounded
/// down, and is left out where that is zero.
pub proof fn lemma_claim_pays_in_full(winners: WinnersView, user: Address, fee_percent: u64)
    requires
        winners.wf(),
        winners.has_prize(user),
        fee_percent <= 100,
    ensures
        claim_outcome(winners, user, fee_percent) is Ok,
        claim_outcome(winners, user, fee_percent)->Ok_0.fee() + claim_outcome(
            winners,
            user,
            fee_percent,
        )->Ok_0.payout() == winners.prize_of(user),
        claim_outcome(winners, user, fee_percent)->Ok_0.fee() == fee_of(
            winners.prize_of(user) as u64,
            fee_percent,
        ),
{
    crate::payout::lemma_payout_is_exact(user, winners.prize_of(user) as u64, fee_percent);
}

/// Sets the game up with `owner` as its administrator: round zero, an open
/// round without stakes, a registry without records.
///
/// Refuses with `AlreadyInitialized` where the configuration has an
/// administrator, and with `Unauthorized` where `owner` is the null address.
pub fn initialize(
    config: &mut Config,
    round_info: &mut RoundInfo,
    winners: &mut Winners,
    owner: Address,
) -> (r: Result<(), ErrorCode>)
    ensures
        r == initialize_outcome(*old(config), owner),
        r is Ok ==> {
            &&& *final(config) == (Config { owner: owner, current_round: 0 })
            &&& final(config).is_initialized()
            &&& final(round_info)@ == RoundView::fresh()
            &&& final(round_info)@.wf()
            &&& final(winners)@ == WinnersView::empty()
            &&& final(winners)@.wf()
        },
        r is Err ==> {
            &&& *final(config) == *old(config)
            &&& *final(round_info) == *old(round_info)
            &&& *final(winners) == *old(winners)
        },
{
    if !config.owner.is_default() {
        return Err(ErrorCode::AlreadyInitialized);
    }
    if owner.is_default() {
        return Err(ErrorCode::Unauthorized);
    }
    config.owner = owner;
    config.current_round = 0;
    round_info.reset();
    winners.records.clear();
    Ok(())
}

/// Takes a deposit of `amount` from `user` into the active round.
///
/// Refuses as the ledger does: `RoundClosed`, `InvalidDeposit`, `Overflow`.
/// An accepted deposit is recorded in the ledger and answered with the
/// transfer of `amount` from the depositor to the round vault.
pub fn deposit(round_info: &mut RoundInfo, user: Address, mint: Address, amount: u64) -> (r: Result<
    Transfer,
    ErrorCode,
>)
    requires
        old(round_info)@.wf(),
    ensures
        r == deposit_outcome(old(round_info)@, user, amount),
        r is Ok ==> final(round_info)@ == old(round_info)@.recorded(user, mint, amount),
        r is Err ==> *final(round_info) == *old(round_info),
        final(round_info)@.wf(),
{
    match round_info.record(user, mint, amount) {
        Ok(()) => Ok(Transfer { from: Custody::Holder(user), to: Custody::RoundVault, amount }),
        Err(e) => Err(e),
    }
}

/// Draws `winner_pubkey` as the winner of the active round, on behalf of
/// `caller`.
///
/// An accepted draw adds the whole pot to what the winner may claim, empties
/// the round and opens it again, counts the round, and is answered with the
/// transfer of the pot from the round vault to the prize vault. A refused
/// one changes nothing.
pub fn draw_winner(
    config: &mut Config,
    round_info: &mut RoundInfo,
    winners: &mut Winners,
    caller: Address,
    winner_pubkey: Address,
) -> (r: Result<Transfer, ErrorCode>)
    requires
        old(round_info)@.wf(),
        old(winners)@.wf(),
    ensures
        r == draw_outcome(*old(config), old(round_info)@, old(winners)@, caller, winner_pubkey),
        r is Ok ==> {
            &&& final(round_info)@ == RoundView::fresh()
            &&& final(winners)@ == old(winners)@.credited(
                winner_pubkey,
                old(round_info).total_deposits,
            )
            &&& final(winners)@.prize_of(winner_pubkey) == old(winners)@.prize_of(winner_pubkey)
                + old(round_info).total_deposits
            &&& *final(config) == (Config {
                owner: old(config).owner,
                current_round: next_round(old(config).current_round),
            })
        },
        r is Err ==> {
            &&& *final(config) == *old(config)
            &&& *final(round_info) == *old(round_info)
            &&& *final(winners) == *old(winners)
        },
        final(round_info)@.wf(),
        final(winners)@.wf(),
{
    match require_admin(config, &caller) {
        Ok(()) => {},
        Err(e) => {
            return Err(e);
        },
    }
    if !round_info.is_round_open {
        return Err(ErrorCode::RoundClosed);
    }
    if round_info.deposits.len() == 0 {
        return Err(ErrorCode::NoDeposits);
    }
    if !round_info.has_depositor(&winner_pubkey) {
        return Err(ErrorCode::InvalidWinner);
    }
    let prize = round_info.total_deposits;
    proof {
        crate::ledger::lemma_len_within_sum(round_info@.deposits);
        if winners@.credit_outcome(winner_pubkey, prize) is Ok {
            winners@.lemma_credited(winner_pubkey, prize);
        }
    }
    match winners.credit(winner_pubkey, prize) {
        Ok(()) => {},
        Err(e) => {
            return Err(e);
        },
    }
    round_info.reset();
    config.current_round = config.current_round.wrapping_add(1);
    Ok(Transfer { from: Custody::RoundVault, to: Custody::PrizeVault, amount: prize })
}

/// Pays out what `user` may claim, the house keeping `fee_percent` percent,
/// rounded down.
///
/// Refuses with `NoPrize`, and changes nothing, where `user` has no record.
/// An accepted claim removes the record and is answered with the legs of
/// the prize, which add up to the recorded amount.
pub fn claim_reward(winners: &mut Winners, user: Address, fee_percent: u64) -> (r: Result<
    Payout,
    ErrorCode,
>)
    requires
        old(winners)@.wf(),
        fee_percent <= 100,
    ensures
        r == claim_outcome(old(winners)@, user, fee_percent),
        r is Ok ==> r->Ok_0.fee() + r->Ok_0.payout() == old(winners)@.prize_of(user),
        r is Err ==> *final(winners) == *old(winners),
        final(winners)@ == old(winners)@.without(user),
        final(winners)@.wf(),
        !final(winners)@.has_prize(user),
{
    proof {
        winners@.lemma_without(user);
    }
    let slot = match winners.find(&user) {
        Some(slot) => slot,
        None => {
            return Err(ErrorCode::NoPrize);
        },
    };
    let record = winners.records[slot];
    match require_claimant(&user, &record) {
        Ok(()) => {},
        Err(e) => {
            return Err(e);
        },
    }
    let payout = split_prize(user, record.amount, fee_percent);
    winners.records.remove(slot);
    assert(winners@ =~= old(winners)@.without(user));
    Ok(payout)
}

/// Lets the administrator take `amount` out of the prize vault.
///
/// Nothing here knows what the vault holds: that a withdrawal leaves enough
/// for the prizes still on record is trusted of the administrator.
pub fn admin_withdraw(config: &Config, caller: Address, amount: u64) -> (r: Result<
    Transfer,
    ErrorCode,
>)
    ensures
        r == withdraw_outcome(*config, caller, amount),
{
    match require_admin(config, &caller) {
        Ok(()) => Ok(Transfer { from: Custody::PrizeVault, to: Custody::AdminAccount, amount }),
        Err(e) => Err(e),
    }
}

/// Hands the administration over to `new_owner`, whoever that is, at the
/// administrator's request.
pub fn change_owner(config: &mut Config, caller: Address, new_owner: Address) -> (r: Result<
    (),
    ErrorCode,
>)
    ensures
        r == admin_check(*old(config), caller),
        r is Ok ==> *final(config) == (Config {
            owner: new_owner,
            current_round: old(config).current_round,
        }),
        r is Err ==> *final(config) == *old(config),
{
    match require_admin(config, &caller) {
        Ok(()) => {
            config.owner = new_owner;
            Ok(())
        },
        Err(e) => Err(e),
    }
}

} // verus!
