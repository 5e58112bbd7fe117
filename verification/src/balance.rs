//! Shares and the tokens that they stand for, and the limits on what is stored.
use crate::env::State;
use crate::math::mul_div;
use vstd::prelude::*;

verus! {

/// The highest reward rate: 100% a year.
pub const MAX_RATE_BPS: u32 = 10_000;

/// The decimals of a token for which none are given: those of a Stellar asset.
pub const DEFAULT_TOKEN_DECIMALS: u32 = 7;

/// How many rate changes are kept.
pub const MAX_RATE_HISTORY_ENTRIES: u32 = 50;

/// How many rate changes are kept with all that is known about them.
pub const MAX_RICH_RATE_HISTORY: u32 = 20;

/// How many governance checkpoints are kept.
pub const MAX_STAKED_SNAPSHOTS: u32 = 50;

/// The tokens that `shares` stand for: their part of what is deposited.
pub open spec fn worth(total_shares: i128, total_deposited: i128, shares: i128) -> Option<i128> {
    crate::math::scaled(shares as int, total_deposited as int, total_shares as int)
}

/// The shares that are minted for `amount`: one for one into an empty pool, and otherwise as
/// many as keep the worth of a share.
pub open spec fn minted(total_shares: i128, total_deposited: i128, amount: i128) -> Option<i128> {
    if total_shares == 0 || total_deposited == 0 {
        Some(amount)
    } else {
        crate::math::scaled(amount as int, total_shares as int, total_deposited as int)
    }
}

impl State {
    /// The tokens that `shares` stand for now.
    pub open spec fn worth(self, shares: i128) -> Option<i128> {
        worth(self.pool.total_shares, self.pool.total_deposited, shares)
    }

    /// The shares that are minted for `amount` now.
    pub open spec fn minted(self, amount: i128) -> Option<i128> {
        minted(self.pool.total_shares, self.pool.total_deposited, amount)
    }
}

/// The tokens that `shares` stand for.
pub fn shares_to_amount(total_shares: i128, total_deposited: i128, shares: i128) -> (amount: Option<
    i128,
>)
    ensures
        amount == worth(total_shares, total_deposited, shares),
{
    mul_div(shares, total_deposited, total_shares)
}

/// The shares that are minted for `amount`.
pub fn amount_to_shares(total_shares: i128, total_deposited: i128, amount: i128) -> (shares: Option<
    i128,
>)
    ensures
        shares == minted(total_shares, total_deposited, amount),
{
    if total_shares == 0 || total_deposited == 0 {
        Some(amount)
    } else {
        mul_div(amount, total_shares, total_deposited)
    }
}

} // verus!
