//! The error taxonomy of the strategy lifecycle.

use vstd::prelude::*;

use crate::types::PerpetualId;

verus! {

broadcast use vstd::string::to_string_from_display_ensures_for_str;

/// Fatal configuration errors raised while a strategy initializes, and the
/// local fault for a strategy operation attempted before binding. Submission
/// and transport failures are the surrounding process's concern and are not
/// represented here.
#[derive(Clone, Copy, Debug, PartialEq, Eq, Structural)]
pub enum Error {
    /// The snapshot holds no account the strategy could bind to.
    NoAccountFoundForStrategy,
    /// The snapshot holds more than one account; the strategy cannot choose.
    TooManyAccountsForStrategy,
    /// The strategy is already bound to an account; binding is write-once.
    AccountIdAlreadySet,
    /// The perpetual the strategy trades on is absent from the snapshot.
    PerpetualNotFoundInExchangeState(PerpetualId),
    /// A strategy operation was attempted before `initialize` bound an account.
    StrategyNotInitialized,
}

impl Error {
    /// A short human-readable description of the error.
    pub fn describe(&self) -> (r: String)
        ensures
            r@ == match *self {
                Error::NoAccountFoundForStrategy => "no account found for strategy"@,
                Error::TooManyAccountsForStrategy => "too many accounts found for strategy"@,
                Error::AccountIdAlreadySet => "account id already set"@,
                Error::PerpetualNotFoundInExchangeState(_) => {
                    "perpetual id not found in exchange state"@
                },
                Error::StrategyNotInitialized => "strategy not initialized"@,
            },
    {
        match self {
            Error::NoAccountFoundForStrategy => "no account found for strategy".to_string(),
            Error::TooManyAccountsForStrategy => "too many accounts found for strategy".to_string(),
            Error::AccountIdAlreadySet => "account id already set".to_string(),
            Error::PerpetualNotFoundInExchangeState(_) => {
                "perpetual id not found in exchange state".to_string()
            },
            Error::StrategyNotInitialized => "strategy not initialized".to_string(),
        }
    }
}

} // verus!
