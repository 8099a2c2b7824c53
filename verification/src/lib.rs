//! Accounting and authorization core of a round-based pooled-stake game.
//!
//! Participants deposit into the pot of the active round, the administrator
//! draws one of them as the winner, the pot is earmarked for that winner and
//! the winner claims it exactly once.
//!
//! The state is passed in by the caller: a [`Config`], the active
//! [`RoundInfo`] and the [`Winners`] registry. An operation either is refused
//! with an [`ErrorCode`] and changes nothing, or changes the state and
//! returns the [`Transfer`]s that go with the change. The caller moves the
//! value, and commits both or neither.

pub mod access;
pub mod address;
pub mod error;
pub mod game;
pub mod ledger;
pub mod machine;
pub mod payout;
pub mod registry;

pub use access::{require_admin, require_claimant, Config};
pub use address::Address;
pub use error::ErrorCode;
pub use game::{admin_withdraw, change_owner, claim_reward, deposit, draw_winner, initialize};
pub use ledger::{DepositIndex, RoundInfo, Tokens};
pub use payout::{split_prize, Custody, Payout, Transfer, HOUSE_FEE_PERCENT};
pub use registry::{WinnerRecord, Winners};
