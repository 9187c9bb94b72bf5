//! Redeeming shares for their proportion of both reserves.

use vstd::prelude::*;
use crate::error::LpErrors;
use crate::math::{lemma_mul_div_floor_at_most, lemma_mul_div_floor_cancel, mul_div, mul_div_floor};
use crate::state::{backed, consistent, Mint, Pool, TokenAccount};

verus! {

/// The accounts of one withdrawal.
#[derive(Clone, Copy, Debug, PartialEq, Eq)]
pub struct RemoveLiquidity {
    pub pool: Pool,
    pub vault_a: TokenAccount,
    pub vault_b: TokenAccount,
    pub user_ata_a: TokenAccount,
    pub user_ata_b: TokenAccount,
    pub user_lp_ata: TokenAccount,
    pub lp_mint: Mint,
}

/// What `lp_amount` shares redeem from one reserve:
/// `floor(lp_amount * reserve / supply)`, on the supply and the reserve as
/// they stand before the shares are burnt.
pub open spec fn withdrawn(lp_amount: int, reserve: int, supply: int) -> int {
    mul_div_floor(lp_amount, reserve, supply)
}

/// The result of [`amounts_to_withdraw`].
pub open spec fn amounts_outcome(lp_amount: u64, reserve_a: u64, reserve_b: u64, supply: u64) -> Result<
    (u64, u64),
    LpErrors,
> {
    let amount_a = withdrawn(lp_amount as int, reserve_a as int, supply as int);
    let amount_b = withdrawn(lp_amount as int, reserve_b as int, supply as int);
    if supply == 0 {
        Err(LpErrors::NoLiquidityFound)
    } else if amount_a > u64::MAX || amount_b > u64::MAX {
        Err(LpErrors::MathOverflow)
    } else {
        Ok((amount_a as u64, amount_b as u64))
    }
}

/// Computes what `lp_amount` shares redeem from each reserve:
/// [`withdrawn`].
///
/// Fails with `NoLiquidityFound` where no shares are outstanding, and with
/// `MathOverflow` where an amount does not fit in 64 bits, as it may where
/// more shares are redeemed than exist.
pub fn amounts_to_withdraw(lp_amount: u64, reserve_a: u64, reserve_b: u64, supply: u64) -> (result: Result<
    (u64, u64),
    LpErrors,
>)
    ensures
        result == amounts_outcome(lp_amount, reserve_a, reserve_b, supply),
{
    if supply == 0 {
        return Err(LpErrors::NoLiquidityFound);
    }
    match (mul_div(lp_amount, reserve_a, supply), mul_div(lp_amount, reserve_b, supply)) {
        (Some(amount_a), Some(amount_b)) => Ok((amount_a, amount_b)),
        _ => Err(LpErrors::MathOverflow),
    }
}

impl RemoveLiquidity {
    /// The result of [`RemoveLiquidity::remove_liquidity`]: the two amounts
    /// paid out, or the first of these that applies: no shares are
    /// outstanding; the caller redeems more shares than they hold, or than
    /// exist; a balance of the caller would pass 64 bits.
    pub open spec fn outcome(&self, lp_amount: u64) -> Result<(u64, u64), LpErrors> {
        let supply = self.lp_mint.supply;
        let amount_a = withdrawn(lp_amount as int, self.vault_a.amount as int, supply as int);
        let amount_b = withdrawn(lp_amount as int, self.vault_b.amount as int, supply as int);
        if supply == 0 {
            Err(LpErrors::NoLiquidityFound)
        } else if lp_amount > self.user_lp_ata.amount || lp_amount > supply {
            Err(LpErrors::InsufficientFunds)
        } else if self.user_ata_a.amount + amount_a > u64::MAX || self.user_ata_b.amount + amount_b
            > u64::MAX {
            Err(LpErrors::MathOverflow)
        } else {
            Ok((amount_a as u64, amount_b as u64))
        }
    }

    /// The accounts after a withdrawal that paid `amount_a` and `amount_b`:
    /// the shares are burnt, and the amounts have gone from the vaults to the
    /// caller.
    pub open spec fn applied(&self, lp_amount: u64, amount_a: u64, amount_b: u64) -> RemoveLiquidity {
        RemoveLiquidity {
            pool: self.pool,
            vault_a: TokenAccount {
                mint: self.vault_a.mint,
                amount: (self.vault_a.amount - amount_a) as u64,
            },
            vault_b: TokenAccount {
                mint: self.vault_b.mint,
                amount: (self.vault_b.amount - amount_b) as u64,
            },
            user_ata_a: TokenAccount {
                mint: self.user_ata_a.mint,
                amount: (self.user_ata_a.amount + amount_a) as u64,
            },
            user_ata_b: TokenAccount {
                mint: self.user_ata_b.mint,
                amount: (self.user_ata_b.amount + amount_b) as u64,
            },
            user_lp_ata: TokenAccount {
                mint: self.user_lp_ata.mint,
                amount: (self.user_lp_ata.amount - lp_amount) as u64,
            },
            lp_mint: Mint { supply: (self.lp_mint.supply - lp_amount) as u64 },
        }
    }

    /// Burns `lp_amount` shares of the caller and pays out their proportion
    /// of both reserves.
    ///
    /// On success the accounts are as [`RemoveLiquidity::applied`] says, and
    /// neither amount exceeds its reserve. Redeeming the whole supply empties
    /// both vaults: rounding leaves nothing behind. On failure nothing has
    /// changed. Either way a pool whose shares and reserves stand and fall
    /// together still does so afterwards.
    pub fn remove_liquidity(&mut self, lp_amount: u64) -> (result: Result<(u64, u64), LpErrors>)
        ensures
            result == old(self).outcome(lp_amount),
            result.is_ok() ==> *final(self) == old(self).applied(
                lp_amount,
                result.unwrap().0,
                result.unwrap().1,
            ),
            result.is_ok() ==> result.unwrap().0 <= old(self).vault_a.amount && result.unwrap().1 <= old(
                self,
            ).vault_b.amount,
            result.is_ok() && lp_amount == old(self).lp_mint.supply ==> final(self).vault_a.amount == 0
                && final(self).vault_b.amount == 0 && final(self).lp_mint.supply == 0,
            backed(old(self).lp_mint.supply, old(self).vault_a.amount, old(self).vault_b.amount)
                ==> backed(final(self).lp_mint.supply, final(self).vault_a.amount, final(self).vault_b.amount),
            consistent(old(self).lp_mint.supply, old(self).vault_a.amount, old(self).vault_b.amount)
                ==> consistent(
                final(self).lp_mint.supply,
                final(self).vault_a.amount,
                final(self).vault_b.amount,
            ),
            result.is_err() ==> *final(self) == *old(self),
    {
        let supply = self.lp_mint.supply;
        if supply == 0 {
            return Err(LpErrors::NoLiquidityFound);
        }
        if lp_amount > self.user_lp_ata.amount || lp_amount > supply {
            return Err(LpErrors::InsufficientFunds);
        }
        proof {
            lemma_mul_div_floor_at_most(lp_amount as int, self.vault_a.amount as int, supply as int);
            lemma_mul_div_floor_at_most(lp_amount as int, self.vault_b.amount as int, supply as int);
            lemma_mul_div_floor_cancel(self.vault_a.amount as int, supply as int);
            lemma_mul_div_floor_cancel(self.vault_b.amount as int, supply as int);
        }
        let (amount_a, amount_b) = match amounts_to_withdraw(
            lp_amount,
            self.vault_a.amount,
            self.vault_b.amount,
            supply,
        ) {
            Ok(amounts) => amounts,
            Err(e) => {
                return Err(e);
            },
        };
        if self.user_ata_a.amount > u64::MAX - amount_a || self.user_ata_b.amount > u64::MAX - amount_b {
            return Err(LpErrors::MathOverflow);
        }
        self.user_lp_ata.amount = self.user_lp_ata.amount - lp_amount;
        self.lp_mint.supply = supply - lp_amount;
        self.vault_a.amount = self.vault_a.amount - amount_a;
        self.user_ata_a.amount = self.user_ata_a.amount + amount_a;
        self.vault_b.amount = self.vault_b.amount - amount_b;
        self.user_ata_b.amount = self.user_ata_b.amount + amount_b;
        Ok((amount_a, amount_b))
    }
}

/// Runs [`RemoveLiquidity::remove_liquidity`] on the accounts given.
pub fn handler(ctx: &mut RemoveLiquidity, lp_amount: u64) -> (result: Result<(u64, u64), LpErrors>)
    ensures
        result == old(ctx).outcome(lp_amount),
        result.is_ok() ==> *final(ctx) == old(ctx).applied(
            lp_amount,
            result.unwrap().0,
            result.unwrap().1,
        ),
        result.is_err() ==> *final(ctx) == *old(ctx),
{
    ctx.remove_liquidity(lp_amount)
}

} // verus!
