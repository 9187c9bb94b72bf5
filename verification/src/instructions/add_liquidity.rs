//! Depositing both assets in return for newly minted shares.

use vstd::prelude::*;
use crate::error::LpErrors;
use crate::math::{floor_sqrt, integer_sqrt, lemma_floor_sqrt_is_root, mul_div_floor, mul_div_wide};
use crate::state::{backed, consistent, Mint, Pool, TokenAccount};

verus! {

/// The accounts of one deposit.
#[derive(Clone, Copy, Debug, PartialEq, Eq)]
pub struct AddLiquidity {
    pub pool: Pool,
    pub vault_a: TokenAccount,
    pub vault_b: TokenAccount,
    pub user_ata_a: TokenAccount,
    pub user_ata_b: TokenAccount,
    pub lp_mint: Mint,
    pub user_lp_ata: TokenAccount,
}

/// The shares that a deposit earns.
///
/// Into a pool without shares, the integer square root of the product of the
/// two amounts. Otherwise each amount is worth its proportion of the supply,
/// `floor(amount * supply / reserve)`, and the smaller of the two counts:
/// whatever one side brings beyond the pool's ratio is kept by the pool and
/// earns nothing.
pub open spec fn minted_shares(amount_a: int, amount_b: int, reserve_a: int, reserve_b: int, supply: int) -> int {
    if supply == 0 {
        floor_sqrt(amount_a * amount_b)
    } else {
        vstd::math::min(
            mul_div_floor(amount_a, supply, reserve_a),
            mul_div_floor(amount_b, supply, reserve_b),
        )
    }
}

/// The result of [`shares_to_mint`].
pub open spec fn shares_outcome(amount_a: u64, amount_b: u64, reserve_a: u64, reserve_b: u64, supply: u64) -> Result<
    u64,
    LpErrors,
> {
    let minted = minted_shares(
        amount_a as int,
        amount_b as int,
        reserve_a as int,
        reserve_b as int,
        supply as int,
    );
    if supply > 0 && (reserve_a == 0 || reserve_b == 0) {
        Err(LpErrors::EmptyPool)
    } else if minted > u64::MAX {
        Err(LpErrors::MathOverflow)
    } else {
        Ok(minted as u64)
    }
}

/// Computes the shares that a deposit earns: [`minted_shares`].
///
/// Fails with `EmptyPool` where shares are outstanding and a reserve is
/// zero, and with `MathOverflow` where the shares do not fit in 64 bits.
///
/// This only prices a deposit. A first deposit priced at zero shares is
/// refused by [`AddLiquidity::add_liquidity`].
pub fn shares_to_mint(amount_a: u64, amount_b: u64, reserve_a: u64, reserve_b: u64, supply: u64) -> (result:
    Result<u64, LpErrors>)
    ensures
        result == shares_outcome(amount_a, amount_b, reserve_a, reserve_b, supply),
        result.is_ok() ==> result.unwrap() as int == minted_shares(
            amount_a as int,
            amount_b as int,
            reserve_a as int,
            reserve_b as int,
            supply as int,
        ),
        result.is_ok() && supply > 0 ==> result.unwrap() <= mul_div_floor(
            amount_a as int,
            supply as int,
            reserve_a as int,
        ) && result.unwrap() <= mul_div_floor(amount_b as int, supply as int, reserve_b as int),
{
    if supply == 0 {
        assert(amount_a * amount_b <= u128::MAX) by (nonlinear_arith)
            requires
                amount_a <= 0xFFFF_FFFF_FFFF_FFFF,
                amount_b <= 0xFFFF_FFFF_FFFF_FFFF,
        ;
        return Ok(integer_sqrt((amount_a as u128) * (amount_b as u128)));
    }
    if reserve_a == 0 || reserve_b == 0 {
        return Err(LpErrors::EmptyPool);
    }
    let share_a: u128 = mul_div_wide(amount_a, supply, reserve_a as u128);
    let share_b: u128 = mul_div_wide(amount_b, supply, reserve_b as u128);
    let minted: u128 = if share_a <= share_b {
        share_a
    } else {
        share_b
    };
    if minted > u64::MAX as u128 {
        Err(LpErrors::MathOverflow)
    } else {
        Ok(minted as u64)
    }
}

impl AddLiquidity {
    /// The result of [`AddLiquidity::add_liquidity`]: the shares minted, or
    /// the first of these that applies: the failure of [`shares_to_mint`];
    /// no shares are outstanding and one of the amounts is zero; the caller
    /// holds less than they deposit; a balance or the supply would pass 64
    /// bits.
    ///
    /// A first deposit must bring both assets: with one amount zero it would
    /// earn no shares and leave reserves that nobody owns. A later deposit
    /// may bring nothing of one asset, or of both.
    pub open spec fn outcome(&self, amount_a: u64, amount_b: u64) -> Result<u64, LpErrors> {
        let shares = shares_outcome(
            amount_a,
            amount_b,
            self.vault_a.amount,
            self.vault_b.amount,
            self.lp_mint.supply,
        );
        if shares.is_err() {
            shares
        } else if self.lp_mint.supply == 0 && (amount_a == 0 || amount_b == 0) {
            Err(LpErrors::InvalidInput)
        } else if self.user_ata_a.amount < amount_a || self.user_ata_b.amount < amount_b {
            Err(LpErrors::InsufficientFunds)
        } else if self.vault_a.amount + amount_a > u64::MAX || self.vault_b.amount + amount_b
            > u64::MAX || self.lp_mint.supply + shares.unwrap() > u64::MAX
            || self.user_lp_ata.amount + shares.unwrap() > u64::MAX {
            Err(LpErrors::MathOverflow)
        } else {
            shares
        }
    }

    /// The accounts after a deposit that earned `minted`: both amounts have
    /// gone from the caller to the vaults in full, and `minted` new shares to
    /// the caller.
    pub open spec fn applied(&self, amount_a: u64, amount_b: u64, minted: u64) -> AddLiquidity {
        AddLiquidity {
            pool: self.pool,
            vault_a: TokenAccount {
                mint: self.vault_a.mint,
                amount: (self.vault_a.amount + amount_a) as u64,
            },
            vault_b: TokenAccount {
                mint: self.vault_b.mint,
                amount: (self.vault_b.amount + amount_b) as u64,
            },
            user_ata_a: TokenAccount {
                mint: self.user_ata_a.mint,
                amount: (self.user_ata_a.amount - amount_a) as u64,
            },
            user_ata_b: TokenAccount {
                mint: self.user_ata_b.mint,
                amount: (self.user_ata_b.amount - amount_b) as u64,
            },
            lp_mint: Mint { supply: (self.lp_mint.supply + minted) as u64 },
            user_lp_ata: TokenAccount {
                mint: self.user_lp_ata.mint,
                amount: (self.user_lp_ata.amount + minted) as u64,
            },
        }
    }

    /// Deposits `amount_a` and `amount_b` and mints shares for them.
    ///
    /// A first deposit with an amount of zero is refused with
    /// `InvalidInput`; later deposits accept amounts of zero. On success the
    /// accounts are as [`AddLiquidity::applied`] says. On failure nothing has
    /// changed. Either way a pool whose shares and reserves stand and fall
    /// together still does so afterwards.
    pub fn add_liquidity(&mut self, amount_a: u64, amount_b: u64) -> (result: Result<u64, LpErrors>)
        ensures
            result == old(self).outcome(amount_a, amount_b),
            result.is_ok() ==> *final(self) == old(self).applied(amount_a, amount_b, result.unwrap()),
            result.is_ok() ==> result.unwrap() as int == minted_shares(
                amount_a as int,
                amount_b as int,
                old(self).vault_a.amount as int,
                old(self).vault_b.amount as int,
                old(self).lp_mint.supply as int,
            ),
            result.is_ok() && old(self).lp_mint.supply > 0 ==> result.unwrap() <= mul_div_floor(
                amount_a as int,
                old(self).lp_mint.supply as int,
                old(self).vault_a.amount as int,
            ) && result.unwrap() <= mul_div_floor(
                amount_b as int,
                old(self).lp_mint.supply as int,
                old(self).vault_b.amount as int,
            ),
            old(self).lp_mint.supply > 0 && (old(self).vault_a.amount == 0 || old(self).vault_b.amount
                == 0) ==> result == Err::<u64, LpErrors>(LpErrors::EmptyPool),
            backed(old(self).lp_mint.supply, old(self).vault_a.amount, old(self).vault_b.amount)
                ==> backed(final(self).lp_mint.supply, final(self).vault_a.amount, final(self).vault_b.amount),
            consistent(old(self).lp_mint.supply, old(self).vault_a.amount, old(self).vault_b.amount)
                ==> consistent(
                final(self).lp_mint.supply,
                final(self).vault_a.amount,
                final(self).vault_b.amount,
            ),
            old(self).lp_mint.supply == 0 && (amount_a == 0 || amount_b == 0) ==> result == Err::<
                u64,
                LpErrors,
            >(LpErrors::InvalidInput),
            result.is_err() ==> *final(self) == *old(self),
    {
        proof {
            if self.lp_mint.supply == 0 {
                let product = amount_a as int * amount_b as int;
                assert(0 <= product) by (nonlinear_arith)
                    requires
                        product == amount_a as int * amount_b as int,
                ;
                lemma_floor_sqrt_is_root(product);
                let root = floor_sqrt(product);
                assert(root > 0 ==> amount_a > 0 && amount_b > 0) by (nonlinear_arith)
                    requires
                        root * root <= product,
                        product == amount_a as int * amount_b as int,
                ;
                assert(amount_a > 0 && amount_b > 0 ==> root > 0) by (nonlinear_arith)
                    requires
                        0 <= root,
                        product < (root + 1) * (root + 1),
                        product == amount_a as int * amount_b as int,
                ;
            }
        }
        let minted = match shares_to_mint(
            amount_a,
            amount_b,
            self.vault_a.amount,
            self.vault_b.amount,
            self.lp_mint.supply,
        ) {
            Ok(minted) => minted,
            Err(e) => {
                return Err(e);
            },
        };
        if self.lp_mint.supply == 0 && (amount_a == 0 || amount_b == 0) {
            return Err(LpErrors::InvalidInput);
        }
        if self.user_ata_a.amount < amount_a || self.user_ata_b.amount < amount_b {
            return Err(LpErrors::InsufficientFunds);
        }
        if self.vault_a.amount > u64::MAX - amount_a || self.vault_b.amount > u64::MAX - amount_b
            || self.lp_mint.supply > u64::MAX - minted || self.user_lp_ata.amount > u64::MAX - minted {
            return Err(LpErrors::MathOverflow);
        }
        self.user_ata_a.amount = self.user_ata_a.amount - amount_a;
        self.vault_a.amount = self.vault_a.amount + amount_a;
        self.user_ata_b.amount = self.user_ata_b.amount - amount_b;
        self.vault_b.amount = self.vault_b.amount + amount_b;
        self.lp_mint.supply = self.lp_mint.supply + minted;
        self.user_lp_ata.amount = self.user_lp_ata.amount + minted;
        Ok(minted)
    }
}

/// Runs [`AddLiquidity::add_liquidity`] on the accounts given.
pub fn handler(ctx: &mut AddLiquidity, amount_a: u64, amount_b: u64) -> (result: Result<u64, LpErrors>)
    ensures
        result == old(ctx).outcome(amount_a, amount_b),
        result.is_ok() ==> *final(ctx) == old(ctx).applied(amount_a, amount_b, result.unwrap()),
        result.is_err() ==> *final(ctx) == *old(ctx),
{
    ctx.add_liquidity(amount_a, amount_b)
}

} // verus!
