//! Pricing and executing a trade on the constant-product curve.

use vstd::prelude::*;
use crate::error::LpErrors;
use crate::math::{lemma_mul_div_floor_at_most, lemma_mul_div_floor_bounds, mul_div_floor, mul_div_wide};
use crate::state::{consistent, Pool, TokenAccount, BPS_DENOMINATOR};

verus! {

/// What a trade asks for.
#[derive(Clone, Copy, Debug, PartialEq, Eq)]
pub struct SwapParams {
    /// How much the caller gives.
    pub amount_in: u64,
    /// The least the caller accepts in return.
    pub minimum_out: u64,
}

/// The accounts of one trade.
///
/// The caller pays from `user_ata_a` and is paid into `user_ata_b`; which
/// vault receives and which pays follows from the asset of `user_ata_a`.
#[derive(Clone, Copy, Debug, PartialEq, Eq)]
pub struct Swap {
    pub pool: Pool,
    pub vault_a: TokenAccount,
    pub vault_b: TokenAccount,
    pub user_ata_a: TokenAccount,
    pub user_ata_b: TokenAccount,
}

/// The fee on a trade: `floor(amount_in * fee_bps / 10000)`.
pub open spec fn fee_of(amount_in: int, fee_bps: int) -> int {
    mul_div_floor(amount_in, fee_bps, BPS_DENOMINATOR as int)
}

/// What a trade pays out: the constant-product formula on the input that is
/// left after the fee, against the reserves as they stand before the trade.
pub open spec fn amount_out_of(amount_in: int, fee_bps: int, reserve_in: int, reserve_out: int) -> int {
    let net = amount_in - fee_of(amount_in, fee_bps);
    mul_div_floor(net, reserve_out, reserve_in + net)
}

/// The result of [`quote`].
pub open spec fn quote_outcome(amount_in: u64, fee_bps: u16, reserve_in: u64, reserve_out: u64) -> Result<
    u64,
    LpErrors,
> {
    if reserve_in == 0 || reserve_out == 0 {
        Err(LpErrors::EmptyPool)
    } else if fee_bps > BPS_DENOMINATOR {
        Err(LpErrors::InvalidInput)
    } else {
        Ok(amount_out_of(amount_in as int, fee_bps as int, reserve_in as int, reserve_out as int) as u64)
    }
}

/// The fee never exceeds the trade, and the payout never exceeds the paying
/// reserve. The payout is small enough that the product of the reserves does
/// not fall, even if only the input after the fee is counted.
pub proof fn lemma_amount_out_bounds(amount_in: int, fee_bps: int, reserve_in: int, reserve_out: int)
    requires
        0 <= amount_in,
        0 <= fee_bps <= BPS_DENOMINATOR,
        0 < reserve_in,
        0 <= reserve_out,
    ensures
        0 <= fee_of(amount_in, fee_bps) <= amount_in,
        0 <= amount_out_of(amount_in, fee_bps, reserve_in, reserve_out) <= reserve_out,
        reserve_out > 0 ==> amount_out_of(amount_in, fee_bps, reserve_in, reserve_out) < reserve_out,
        (reserve_in + amount_in) * (reserve_out - amount_out_of(
            amount_in,
            fee_bps,
            reserve_in,
            reserve_out,
        )) >= reserve_in * reserve_out,
{
    let fee = fee_of(amount_in, fee_bps);
    lemma_mul_div_floor_at_most(fee_bps, amount_in, BPS_DENOMINATOR as int);
    assert(fee_bps * amount_in == amount_in * fee_bps) by (nonlinear_arith);
    lemma_mul_div_floor_bounds(amount_in, fee_bps, BPS_DENOMINATOR as int);
    let net = amount_in - fee;
    let out = amount_out_of(amount_in, fee_bps, reserve_in, reserve_out);
    lemma_mul_div_floor_bounds(net, reserve_out, reserve_in + net);
    lemma_mul_div_floor_at_most(net, reserve_out, reserve_in + net);
    assert((reserve_in + amount_in) * (reserve_out - out) >= reserve_in * reserve_out)
        by (nonlinear_arith)
        requires
            out * (reserve_in + net) <= net * reserve_out,
            0 <= net <= amount_in,
            0 <= out <= reserve_out,
            0 < reserve_in,
    ;
}

/// Prices a trade of `amount_in` against the given reserves.
///
/// Fails with `EmptyPool` where a reserve is zero, and with `InvalidInput`
/// where the fee rate is above 100%; otherwise the payout is
/// [`amount_out_of`].
pub fn quote(amount_in: u64, fee_bps: u16, reserve_in: u64, reserve_out: u64) -> (result: Result<
    u64,
    LpErrors,
>)
    ensures
        result == quote_outcome(amount_in, fee_bps, reserve_in, reserve_out),
        result.is_ok() ==> result.unwrap() as int == amount_out_of(
            amount_in as int,
            fee_bps as int,
            reserve_in as int,
            reserve_out as int,
        ),
{
    if reserve_in == 0 || reserve_out == 0 {
        return Err(LpErrors::EmptyPool);
    }
    if fee_bps as u64 > BPS_DENOMINATOR {
        return Err(LpErrors::InvalidInput);
    }
    proof {
        lemma_amount_out_bounds(amount_in as int, fee_bps as int, reserve_in as int, reserve_out as int);
    }
    let fee: u128 = mul_div_wide(amount_in, fee_bps as u64, BPS_DENOMINATOR as u128);
    let net: u64 = amount_in - (fee as u64);
    let out: u128 = mul_div_wide(net, reserve_out, reserve_in as u128 + net as u128);
    Ok(out as u64)
}

/// Which way a trade runs.
#[derive(Clone, Copy, Debug, PartialEq, Eq, Structural)]
pub enum Direction {
    /// The caller pays the first asset and receives the second.
    AToB,
    /// The caller pays the second asset and receives the first.
    BToA,
}

impl Swap {
    /// The direction that the asset of the paying account selects, if it is
    /// one of the pool's two.
    pub open spec fn direction(&self) -> Option<Direction> {
        if self.user_ata_a.mint.bytes@ == self.vault_a.mint.bytes@ {
            Some(Direction::AToB)
        } else if self.user_ata_a.mint.bytes@ == self.vault_b.mint.bytes@ {
            Some(Direction::BToA)
        } else {
            None
        }
    }

    /// Finds the direction of the trade: [`Swap::direction`].
    pub fn find_direction(&self) -> (found: Option<Direction>)
        ensures
            found == self.direction(),
    {
        if self.user_ata_a.mint == self.vault_a.mint {
            Some(Direction::AToB)
        } else if self.user_ata_a.mint == self.vault_b.mint {
            Some(Direction::BToA)
        } else {
            None
        }
    }

    /// The balance of the vault that receives.
    pub open spec fn reserve_in(&self) -> u64 {
        if self.direction() == Some(Direction::BToA) {
            self.vault_b.amount
        } else {
            self.vault_a.amount
        }
    }

    /// The balance of the vault that pays.
    pub open spec fn reserve_out(&self) -> u64 {
        if self.direction() == Some(Direction::BToA) {
            self.vault_a.amount
        } else {
            self.vault_b.amount
        }
    }

    /// The result of [`Swap::swap`]: the payout, or the first of these that
    /// applies: the paying account's asset is neither of the pool's; a
    /// reserve is empty; the fee rate is above 100%; the payout is under the
    /// caller's minimum; the caller holds less than they give; a balance
    /// would pass 64 bits.
    ///
    /// A trade knows the reserves but not the supply of shares, so an empty
    /// reserve is refused whatever is traded: a trade of nothing for nothing
    /// succeeds on a pool with reserves, and fails with `EmptyPool` on one
    /// without.
    pub open spec fn outcome(&self, params: SwapParams) -> Result<u64, LpErrors> {
        if self.direction().is_none() {
            Err(LpErrors::InvalidInput)
        } else if self.vault_a.amount == 0 || self.vault_b.amount == 0 {
            Err(LpErrors::EmptyPool)
        } else if self.pool.fee_bps > BPS_DENOMINATOR {
            Err(LpErrors::InvalidInput)
        } else {
            let out = amount_out_of(
                params.amount_in as int,
                self.pool.fee_bps as int,
                self.reserve_in() as int,
                self.reserve_out() as int,
            );
            if out < params.minimum_out {
                Err(LpErrors::SlippageExceeded)
            } else if self.user_ata_a.amount < params.amount_in {
                Err(LpErrors::InsufficientFunds)
            } else if self.reserve_in() + params.amount_in > u64::MAX || self.user_ata_b.amount + out
                > u64::MAX {
                Err(LpErrors::MathOverflow)
            } else {
                Ok(out as u64)
            }
        }
    }

    /// The accounts after a trade that paid `out`: the whole input, fee
    /// included, has gone from the caller to the receiving vault, and `out`
    /// from the paying vault to the caller.
    pub open spec fn applied(&self, amount_in: u64, out: u64) -> Swap {
        let paid_in = (self.reserve_in() + amount_in) as u64;
        let paid_out = (self.reserve_out() - out) as u64;
        let a_to_b = self.direction() != Some(Direction::BToA);
        Swap {
            pool: self.pool,
            vault_a: TokenAccount {
                mint: self.vault_a.mint,
                amount: if a_to_b { paid_in } else { paid_out },
            },
            vault_b: TokenAccount {
                mint: self.vault_b.mint,
                amount: if a_to_b { paid_out } else { paid_in },
            },
            user_ata_a: TokenAccount {
                mint: self.user_ata_a.mint,
                amount: (self.user_ata_a.amount - amount_in) as u64,
            },
            user_ata_b: TokenAccount {
                mint: self.user_ata_b.mint,
                amount: (self.user_ata_b.amount + out) as u64,
            },
        }
    }

    /// Executes a trade.
    ///
    /// The asset that the caller pays with is looked at first: if it is
    /// neither of the pool's, the trade fails with `InvalidInput` whatever
    /// the amounts and the reserves. Only then is an empty reserve refused,
    /// with `EmptyPool`.
    ///
    /// On success the accounts are as [`Swap::applied`] says, the product of
    /// the two reserves has not fallen, and both reserves still hold
    /// something. On failure nothing has changed.
    pub fn swap(&mut self, params: SwapParams) -> (result: Result<u64, LpErrors>)
        ensures
            result == old(self).outcome(params),
            result.is_ok() ==> *final(self) == old(self).applied(params.amount_in, result.unwrap()),
            result.is_ok() ==> final(self).vault_a.amount * final(self).vault_b.amount >= old(
                self,
            ).vault_a.amount * old(self).vault_b.amount,
            old(self).direction().is_none() ==> result == Err::<u64, LpErrors>(LpErrors::InvalidInput),
            old(self).direction().is_some() && (old(self).vault_a.amount == 0 || old(
                self,
            ).vault_b.amount == 0) ==> result == Err::<u64, LpErrors>(LpErrors::EmptyPool),
            result.is_ok() ==> final(self).vault_a.amount > 0 && final(self).vault_b.amount > 0,
            result.is_ok() && params.amount_in == 0 ==> result.unwrap() == 0 && *final(self) == *old(
                self,
            ),
            result.is_err() ==> *final(self) == *old(self),
    {
        let a_to_b = match self.find_direction() {
            Some(Direction::AToB) => true,
            Some(Direction::BToA) => false,
            None => {
                return Err(LpErrors::InvalidInput);
            },
        };
        let (reserve_in, reserve_out) = if a_to_b {
            (self.vault_a.amount, self.vault_b.amount)
        } else {
            (self.vault_b.amount, self.vault_a.amount)
        };
        let out = match quote(params.amount_in, self.pool.fee_bps, reserve_in, reserve_out) {
            Ok(out) => out,
            Err(e) => {
                return Err(e);
            },
        };
        proof {
            lemma_amount_out_bounds(
                params.amount_in as int,
                self.pool.fee_bps as int,
                reserve_in as int,
                reserve_out as int,
            );
            if params.amount_in == 0 {
                assert(amount_out_of(0, self.pool.fee_bps as int, reserve_in as int, reserve_out as int) == 0)
                    by (nonlinear_arith)
                    requires
                        reserve_in > 0,
                ;
            }
            assert(reserve_out * reserve_in == reserve_in * reserve_out) by (nonlinear_arith);
            assert((reserve_out - out) * (reserve_in + params.amount_in) == (reserve_in
                + params.amount_in) * (reserve_out - out)) by (nonlinear_arith);
        }
        if out < params.minimum_out {
            return Err(LpErrors::SlippageExceeded);
        }
        if self.user_ata_a.amount < params.amount_in {
            return Err(LpErrors::InsufficientFunds);
        }
        if reserve_in > u64::MAX - params.amount_in || self.user_ata_b.amount > u64::MAX - out {
            return Err(LpErrors::MathOverflow);
        }
        self.user_ata_a.amount = self.user_ata_a.amount - params.amount_in;
        self.user_ata_b.amount = self.user_ata_b.amount + out;
        if a_to_b {
            self.vault_a.amount = reserve_in + params.amount_in;
            self.vault_b.amount = reserve_out - out;
        } else {
            self.vault_b.amount = reserve_in + params.amount_in;
            self.vault_a.amount = reserve_out - out;
        }
        Ok(out)
    }
}

/// A trade keeps shares and reserves together: it leaves the supply alone
/// and both reserves above zero, so a pool in which no shares means no
/// reserves is still such a pool after it.
pub proof fn lemma_swap_keeps_consistent(ctx: Swap, params: SwapParams, supply: u64)
    requires
        consistent(supply, ctx.vault_a.amount, ctx.vault_b.amount),
        ctx.outcome(params).is_ok(),
    ensures
        consistent(
            supply,
            ctx.applied(params.amount_in, ctx.outcome(params).unwrap()).vault_a.amount,
            ctx.applied(params.amount_in, ctx.outcome(params).unwrap()).vault_b.amount,
        ),
{
}

/// Runs [`Swap::swap`] on the accounts given.
pub fn handler(ctx: &mut Swap, params: SwapParams) -> (result: Result<u64, LpErrors>)
    ensures
        result == old(ctx).outcome(params),
        result.is_ok() ==> *final(ctx) == old(ctx).applied(params.amount_in, result.unwrap()),
        result.is_err() ==> *final(ctx) == *old(ctx),
{
    ctx.swap(params)
}

} // verus!
