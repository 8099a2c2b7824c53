//! The game as a state machine: the states are what the operations work on,
//! the steps are the operations with their arguments, and a refused step
//! leaves the state as it is. What holds of the state after initialization
//! holds after any number of steps.

use vstd::prelude::*;

use crate::access::Config;
use crate::address::Address;
use crate::game::{draw_outcome, initialize_outcome, next_round};
use crate::ledger::{lemma_len_within_sum, stake_sum, RoundView};
use crate::registry::WinnersView;

verus! {

/// The whole state of the game as a mathematical value.
pub struct GameView {
    pub config: Config,
    pub round: RoundView,
    pub winners: WinnersView,
}

/// One operation on an initialized game, with its arguments.
pub enum Step {
    Deposit { user: Address, mint: Address, amount: u64 },
    DrawWinner { caller: Address, winner: Address },
    ClaimReward { user: Address },
    AdminWithdraw { caller: Address, amount: u64 },
    ChangeOwner { caller: Address, new_owner: Address },
}

impl GameView {
    /// The state that an accepted initialization leaves.
    pub open spec fn started(owner: Address) -> GameView {
        GameView {
            config: Config { owner: owner, current_round: 0 },
            round: RoundView::fresh(),
            winners: WinnersView::empty(),
        }
    }

    /// What holds of the game between any two operations: the round and the
    /// registry are valid, and the round is open.
    pub open spec fn wf(self) -> bool {
        &&& self.round.wf()
        &&& self.round.is_round_open
        &&& self.winners.wf()
    }

    /// The state after `step`: the state that the operation leaves where it
    /// is accepted, the same state where it is refused.
    pub open spec fn after(self, step: Step) -> GameView {
        match step {
            Step::Deposit { user, mint, amount } => {
                if self.round.record_outcome(amount) is Ok {
                    GameView {
                        config: self.config,
                        round: self.round.recorded(user, mint, amount),
                        winners: self.winners,
                    }
                } else {
                    self
                }
            },
            Step::DrawWinner { caller, winner } => {
                if draw_outcome(self.config, self.round, self.winners, caller, winner) is Ok {
                    GameView {
                        config: Config {
                            owner: self.config.owner,
                            current_round: next_round(self.config.current_round),
                        },
                        round: RoundView::fresh(),
                        winners: self.winners.credited(winner, self.round.total_deposits),
                    }
                } else {
                    self
                }
            },
            Step::ClaimReward { user } => {
                GameView {
                    config: self.config,
                    round: self.round,
                    winners: self.winners.without(user),
                }
            },
            Step::AdminWithdraw { caller, amount } => self,
            Step::ChangeOwner { caller, new_owner } => {
                if caller == self.config.owner {
                    GameView {
                        config: Config {
                            owner: new_owner,
                            current_round: self.config.current_round,
                        },
                        round: self.round,
                        winners: self.winners,
                    }
                } else {
                    self
                }
            },
        }
    }

    /// The state after the steps of `steps`, taken in their order.
    pub open spec fn after_all(self, steps: Seq<Step>) -> GameView
        decreases steps.len(),
    {
        if steps.len() == 0 {
            self
        } else {
            self.after_all(steps.drop_last()).after(steps.last())
        }
    }

    /// An accepted initialization leaves a valid game, whatever was there.
    pub proof fn lemma_started_is_valid(config: Config, owner: Address)
        requires
            initialize_outcome(config, owner) is Ok,
        ensures
            GameView::started(owner).wf(),
            GameView::started(owner).config.is_initialized(),
    {
    }

    /// No step takes a valid game to an invalid one.
    pub proof fn lemma_step_keeps_validity(self, step: Step)
        requires
            self.wf(),
        ensures
            self.after(step).wf(),
    {
        match step {
            Step::Deposit { user, mint, amount } => {
                if self.round.record_outcome(amount) is Ok {
                    self.round.lemma_recorded_keeps_wf(user, mint, amount);
                }
            },
            Step::DrawWinner { caller, winner } => {
                if draw_outcome(self.config, self.round, self.winners, caller, winner) is Ok {
                    lemma_len_within_sum(self.round.deposits);
                    self.winners.lemma_credited(winner, self.round.total_deposits);
                }
            },
            Step::ClaimReward { user } => {
                self.winners.lemma_without(user);
            },
            Step::AdminWithdraw { caller, amount } => {},
            Step::ChangeOwner { caller, new_owner } => {},
        }
    }

    /// Whatever the steps, a valid game stays valid.
    pub proof fn lemma_steps_keep_validity(self, steps: Seq<Step>)
        requires
            self.wf(),
        ensures
            self.after_all(steps).wf(),
        decreases steps.len(),
    {
        if steps.len() > 0 {
            self.lemma_steps_keep_validity(steps.drop_last());
            self.after_all(steps.drop_last()).lemma_step_keeps_validity(steps.last());
        }
    }

    /// In every state that the game can reach, the round is open, its total
    /// is the sum of its stakes, its index is a one-to-one map from its
    /// depositors onto the positions of the stakes, no stake is empty, no
    /// winner has two records, and no record is empty.
    pub proof fn lemma_reachable_is_valid(owner: Address, steps: Seq<Step>)
        ensures
            GameView::started(owner).after_all(steps).wf(),
            GameView::started(owner).after_all(steps).round.total_deposits == stake_sum(
                GameView::started(owner).after_all(steps).round.deposits,
            ),
            GameView::started(owner).after_all(steps).round.indexed(),
    {
        GameView::started(owner).lemma_steps_keep_validity(steps);
    }
}

} // verus!
