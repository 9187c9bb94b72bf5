//! Accounting core of a two-asset constant-product market maker.
//!
//! The crate keeps a pool's reserves and the supply of its share token in
//! step: deposits mint proportional claims, withdrawals redeem them, and
//! swaps are priced on the constant-product curve with a fee that stays in
//! the pool.
//!
//! Every operation works on a snapshot of the accounts it touches and
//! either succeeds as a whole or leaves the snapshot as it found it. The
//! caller moves the tokens on the ledger by the amounts that the operation
//! returns.

use vstd::prelude::*;
use crate::error::LpErrors;
use crate::instructions::add_liquidity::AddLiquidity;
use crate::instructions::init_pool::{authority_bump, is_keyed, pool_address, InitPool};
use crate::instructions::remove_liquidity::RemoveLiquidity;
use crate::instructions::swap::{Swap, SwapParams};
use crate::state::Address;

pub mod error;
pub mod instructions;
pub mod math;
pub mod record;
pub mod round_trip;
pub mod state;

verus! {

/// Creates a pool for the pair of assets in `ctx` and returns its address.
pub fn initialize_pool(ctx: &mut InitPool, fee_bps: u16, proto_fee_bps: u16) -> (result: Result<
    Address,
    LpErrors,
>)
    ensures
        result == old(ctx).outcome(
            fee_bps,
            proto_fee_bps,
            is_keyed(
                pool_address(old(ctx).mint_a.bytes@, old(ctx).mint_b.bytes@, old(ctx).program_id.bytes@),
                old(ctx).pool_key,
                old(ctx).bump_pool,
            ),
            authority_bump(old(ctx).pool_key.bytes@, old(ctx).program_id.bytes@),
        ),
        result.is_ok() ==> *final(ctx) == (InitPool {
            pool: Some(
                old(ctx).record(
                    fee_bps,
                    proto_fee_bps,
                    old(ctx).bump_pool,
                    authority_bump(old(ctx).pool_key.bytes@, old(ctx).program_id.bytes@).unwrap(),
                ),
            ),
            ..*old(ctx)
        }),
        result.is_err() ==> *final(ctx) == *old(ctx),
{
    crate::instructions::init_pool::handler(ctx, fee_bps, proto_fee_bps)
}

/// Deposits both assets and returns the shares minted for them.
pub fn add_liquidity(ctx: &mut AddLiquidity, amount_a: u64, amount_b: u64) -> (result: Result<u64, LpErrors>)
    ensures
        result == old(ctx).outcome(amount_a, amount_b),
        result.is_ok() ==> *final(ctx) == old(ctx).applied(amount_a, amount_b, result.unwrap()),
        result.is_err() ==> *final(ctx) == *old(ctx),
{
    crate::instructions::add_liquidity::handler(ctx, amount_a, amount_b)
}

/// Redeems `lp_amount` shares and returns what was paid out of each
/// reserve.
pub fn remove_liquidity(ctx: &mut RemoveLiquidity, lp_amount: u64) -> (result: Result<(u64, u64), LpErrors>)
    ensures
        result == old(ctx).outcome(lp_amount),
        result.is_ok() ==> *final(ctx) == old(ctx).applied(
            lp_amount,
            result.unwrap().0,
            result.unwrap().1,
        ),
        result.is_err() ==> *final(ctx) == *old(ctx),
{
    crate::instructions::remove_liquidity::handler(ctx, lp_amount)
}

/// Trades `amount_in` of the asset that the caller pays with, for no less
/// than `minimum_out` of the other, and returns what was paid out.
pub fn swap_token(ctx: &mut Swap, amount_in: u64, minimum_out: u64) -> (result: Result<u64, LpErrors>)
    ensures
        result == old(ctx).outcome((SwapParams { amount_in, minimum_out })),
        result.is_ok() ==> *final(ctx) == old(ctx).applied(amount_in, result.unwrap()),
        result.is_err() ==> *final(ctx) == *old(ctx),
{
    let params = SwapParams { amount_in, minimum_out };
    crate::instructions::swap::handler(ctx, params)
}

} // verus!
