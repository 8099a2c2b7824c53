//! Who may do what: the administrator's operations are reserved to the
//! administrator on record, a prize to the winner it is recorded for.

use vstd::prelude::*;

use crate::address::Address;
use crate::error::ErrorCode;
use crate::registry::WinnerRecord;

verus! {

/// The configuration of the game.
#[derive(Clone, Copy, Debug, PartialEq, Eq)]
pub struct Config {
    /// The administrator. The null address until the game is initialized.
    pub owner: Address,
    /// How many rounds have been drawn, counted modulo 2^64. Nothing else
    /// depends on it.
    pub current_round: u64,
}

impl Config {
    /// Whether the game has been initialized.
    pub open spec fn is_initialized(self) -> bool {
        !self.owner.is_null()
    }

    /// A configuration that has not been initialized.
    pub fn new() -> (config: Config)
        ensures
            !config.is_initialized(),
            config.current_round == 0,
    {
        Config { owner: Address::default(), current_round: 0 }
    }
}

/// What `require_admin` answers.
pub open spec fn admin_check(config: Config, caller: Address) -> Result<(), ErrorCode> {
    if caller == config.owner {
        Ok(())
    } else {
        Err(ErrorCode::Unauthorized)
    }
}

/// What `require_claimant` answers.
pub open spec fn claimant_check(caller: Address, record: WinnerRecord) -> Result<(), ErrorCode> {
    if caller == record.winner {
        Ok(())
    } else {
        Err(ErrorCode::Unauthorized)
    }
}

/// Passes the administrator on record and refuses anyone else with
/// `Unauthorized`.
pub fn require_admin(config: &Config, caller: &Address) -> (r: Result<(), ErrorCode>)
    ensures
        r == admin_check(*config, *caller),
{
    if *caller == config.owner {
        Ok(())
    } else {
        Err(ErrorCode::Unauthorized)
    }
}

/// Passes the winner that the record is for and refuses anyone else with
/// `Unauthorized`.
pub fn require_claimant(caller: &Address, record: &WinnerRecord) -> (r: Result<(), ErrorCode>)
    ensures
        r == claimant_check(*caller, *record),
{
    if *caller == record.winner {
        Ok(())
    } else {
        Err(ErrorCode::Unauthorized)
    }
}

} // verus!
