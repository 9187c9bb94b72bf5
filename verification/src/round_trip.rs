//! What a deposit and the withdrawal of its shares have to do with each
//! other.

use vstd::prelude::*;
use crate::instructions::add_liquidity::AddLiquidity;
use crate::instructions::remove_liquidity::RemoveLiquidity;
use crate::math::{lemma_mul_div_floor_bounds, lemma_mul_div_floor_cancel, mul_div_floor};

verus! {

/// Shares that redeem `m * (reserve + amount) / (supply + m)` redeem no more
/// than `amount`, as long as they were priced at `amount * supply / reserve`
/// or under.
proof fn lemma_redeems_at_most(amount: int, reserve: int, supply: int, m: int)
    requires
        0 <= amount,
        0 < reserve,
        0 < supply,
        0 <= m <= mul_div_floor(amount, supply, reserve),
    ensures
        mul_div_floor(m, reserve + amount, supply + m) <= amount,
{
    lemma_mul_div_floor_bounds(amount, supply, reserve);
    lemma_mul_div_floor_bounds(m, reserve + amount, supply + m);
    let priced = mul_div_floor(amount, supply, reserve);
    let out = mul_div_floor(m, reserve + amount, supply + m);
    assert(m * reserve <= amount * supply) by (nonlinear_arith)
        requires
            0 <= m <= priced,
            priced * reserve <= amount * supply,
            0 < reserve,
    ;
    assert(out <= amount) by (nonlinear_arith)
        requires
            out * (supply + m) <= m * (reserve + amount),
            m * reserve <= amount * supply,
            0 < supply,
            0 <= m,
            0 <= amount,
            0 <= out,
    ;
}

/// Depositing and at once withdrawing the shares that the deposit earned
/// returns no more of either asset than was deposited.
///
/// `remove` is any withdrawal that finds the vaults and the supply as the
/// deposit `add` left them. The pool must not hold reserves without shares
/// before the deposit: the first shares minted would own those reserves too.
pub proof fn lemma_deposit_then_withdraw(add: AddLiquidity, amount_a: u64, amount_b: u64, remove: RemoveLiquidity)
    requires
        add.lp_mint.supply == 0 ==> add.vault_a.amount == 0 && add.vault_b.amount == 0,
        add.outcome(amount_a, amount_b).is_ok(),
        remove.vault_a.amount == add.vault_a.amount + amount_a,
        remove.vault_b.amount == add.vault_b.amount + amount_b,
        remove.lp_mint.supply == add.lp_mint.supply + add.outcome(amount_a, amount_b).unwrap(),
        remove.outcome(add.outcome(amount_a, amount_b).unwrap()).is_ok(),
    ensures
        remove.outcome(add.outcome(amount_a, amount_b).unwrap()).unwrap().0 <= amount_a,
        remove.outcome(add.outcome(amount_a, amount_b).unwrap()).unwrap().1 <= amount_b,
{
    let minted = add.outcome(amount_a, amount_b).unwrap();
    let supply = add.lp_mint.supply;
    if supply == 0 {
        lemma_mul_div_floor_cancel(amount_a as int, minted as int);
        lemma_mul_div_floor_cancel(amount_b as int, minted as int);
    } else {
        lemma_redeems_at_most(amount_a as int, add.vault_a.amount as int, supply as int, minted as int);
        lemma_redeems_at_most(amount_b as int, add.vault_b.amount as int, supply as int, minted as int);
    }
}

} // verus!
