use amm::error::LpErrors;
use amm::instructions::swap::{handler, quote, Direction, Swap, SwapParams};
use amm::state::{Address, Pool, TokenAccount};
use amm::swap_token;

fn key(tag: u8) -> Address {
    Address { bytes: [tag; 32] }
}

fn pool(fee_bps: u16) -> Pool {
    Pool {
        mint_a: key(1),
        mint_b: key(2),
        vault_a: key(3),
        vault_b: key(4),
        lp_mint: key(5),
        fee_bps,
        proto_fee_bps: 0,
        admin: key(6),
        bump_pool: 255,
        bump_auth: 254,
    }
}

fn accounts(reserve_a: u64, reserve_b: u64, fee_bps: u16, source_mint: u8, held: u64) -> Swap {
    Swap {
        pool: pool(fee_bps),
        vault_a: TokenAccount { mint: key(1), amount: reserve_a },
        vault_b: TokenAccount { mint: key(2), amount: reserve_b },
        user_ata_a: TokenAccount { mint: key(source_mint), amount: held },
        user_ata_b: TokenAccount { mint: key(if source_mint == 1 { 2 } else { 1 }), amount: 0 },
    }
}

#[test]
fn quote_of_a_thousand_at_thirty_bps() {
    assert_eq!(quote(1000, 30, 1_000_000, 1_000_000), Ok(996));
}

#[test]
fn quote_without_fee() {
    assert_eq!(quote(100, 0, 100, 100), Ok(50));
    assert_eq!(quote(1, 0, 1, 1), Ok(0));
}

#[test]
fn quote_with_the_whole_trade_as_fee() {
    assert_eq!(quote(1000, 10_000, 500, 500), Ok(0));
}

#[test]
fn quote_refuses_an_empty_reserve() {
    assert_eq!(quote(10, 30, 0, 100), Err(LpErrors::EmptyPool));
    assert_eq!(quote(10, 30, 100, 0), Err(LpErrors::EmptyPool));
    assert_eq!(quote(0, 30, 0, 0), Err(LpErrors::EmptyPool));
}

#[test]
fn quote_refuses_a_fee_above_the_whole() {
    assert_eq!(quote(10, 10_001, 100, 100), Err(LpErrors::InvalidInput));
}

#[test]
fn quote_of_the_largest_amounts() {
    assert_eq!(quote(u64::MAX, 0, u64::MAX, u64::MAX), Ok(u64::MAX / 2));
}

#[test]
fn swap_pays_out_and_keeps_the_fee_in_the_vault() {
    let mut ctx = accounts(1_000_000, 1_000_000, 30, 1, 5000);
    let result = ctx.swap(SwapParams { amount_in: 1000, minimum_out: 996 });
    assert_eq!(result, Ok(996));
    assert_eq!(ctx.vault_a.amount, 1_001_000);
    assert_eq!(ctx.vault_b.amount, 1_000_000 - 996);
    assert_eq!(ctx.user_ata_a.amount, 4000);
    assert_eq!(ctx.user_ata_b.amount, 996);
}

#[test]
fn swap_fails_under_the_minimum() {
    let mut ctx = accounts(1_000_000, 1_000_000, 30, 1, 5000);
    let before = ctx;
    let result = ctx.swap(SwapParams { amount_in: 1000, minimum_out: 997 });
    assert_eq!(result, Err(LpErrors::SlippageExceeded));
    assert_eq!(ctx, before);
}

#[test]
fn swap_of_nothing_for_something_fails() {
    let mut ctx = accounts(1_000_000, 1_000_000, 30, 1, 5000);
    let before = ctx;
    assert_eq!(ctx.swap(SwapParams { amount_in: 0, minimum_out: 1 }), Err(LpErrors::SlippageExceeded));
    assert_eq!(ctx, before);
}

#[test]
fn swap_of_nothing_for_nothing_moves_no_tokens() {
    let mut ctx = accounts(1_000_000, 1_000_000, 30, 1, 5000);
    let before = ctx;
    assert_eq!(ctx.swap(SwapParams { amount_in: 0, minimum_out: 0 }), Ok(0));
    assert_eq!(ctx, before);
}

#[test]
fn swap_runs_the_other_way_for_the_second_asset() {
    let mut ctx = accounts(2_000_000, 1_000_000, 30, 2, 5000);
    let result = ctx.swap(SwapParams { amount_in: 1000, minimum_out: 0 });
    // fee 3, net 997, out = floor(997 * 2_000_000 / 1_000_997) = 1992
    assert_eq!(result, Ok(1992));
    assert_eq!(ctx.vault_b.amount, 1_001_000);
    assert_eq!(ctx.vault_a.amount, 2_000_000 - 1992);
    assert_eq!(ctx.user_ata_a.amount, 4000);
    assert_eq!(ctx.user_ata_b.amount, 1992);
}

#[test]
fn swap_refuses_an_asset_that_is_not_in_the_pool() {
    let mut ctx = accounts(1_000_000, 1_000_000, 30, 9, 5000);
    let before = ctx;
    assert_eq!(ctx.swap(SwapParams { amount_in: 1000, minimum_out: 0 }), Err(LpErrors::InvalidInput));
    assert_eq!(ctx, before);
}

#[test]
fn swap_refuses_a_fee_above_the_whole() {
    let mut ctx = accounts(1_000_000, 1_000_000, 10_001, 1, 5000);
    assert_eq!(ctx.swap(SwapParams { amount_in: 1000, minimum_out: 0 }), Err(LpErrors::InvalidInput));
}

#[test]
fn swap_against_an_empty_reserve_fails() {
    let mut ctx = accounts(0, 1_000_000, 30, 1, 5000);
    let before = ctx;
    assert_eq!(ctx.swap(SwapParams { amount_in: 1000, minimum_out: 0 }), Err(LpErrors::EmptyPool));
    assert_eq!(ctx, before);
    let mut ctx = accounts(1_000_000, 0, 30, 1, 5000);
    assert_eq!(ctx.swap(SwapParams { amount_in: 1000, minimum_out: 0 }), Err(LpErrors::EmptyPool));
    let mut ctx = accounts(0, 0, 30, 2, 5000);
    assert_eq!(ctx.swap(SwapParams { amount_in: 0, minimum_out: 0 }), Err(LpErrors::EmptyPool));
}

#[test]
fn swap_looks_at_the_asset_before_the_reserves() {
    for (reserve_a, reserve_b) in [(0u64, 0u64), (0, 1_000_000), (1_000_000, 0), (1_000_000, 1_000_000)] {
        for (amount_in, minimum_out) in [(0u64, 0u64), (0, 1), (1000, 0), (1000, u64::MAX), (u64::MAX, 0)] {
            let mut ctx = accounts(reserve_a, reserve_b, 30, 9, 5000);
            let before = ctx;
            assert_eq!(ctx.swap(SwapParams { amount_in, minimum_out }), Err(LpErrors::InvalidInput));
            assert_eq!(ctx, before);
        }
    }
    let mut ctx = accounts(0, 0, 10_001, 9, 0);
    assert_eq!(swap_token(&mut ctx, 7, 7), Err(LpErrors::InvalidInput));
}

#[test]
fn swap_looks_at_the_reserves_before_the_fee() {
    let mut ctx = accounts(0, 1_000_000, 10_001, 1, 5000);
    assert_eq!(ctx.swap(SwapParams { amount_in: 1000, minimum_out: 0 }), Err(LpErrors::EmptyPool));
}

#[test]
fn swap_refuses_more_than_the_caller_holds() {
    let mut ctx = accounts(1_000_000, 1_000_000, 30, 1, 999);
    let before = ctx;
    assert_eq!(ctx.swap(SwapParams { amount_in: 1000, minimum_out: 0 }), Err(LpErrors::InsufficientFunds));
    assert_eq!(ctx, before);
}

#[test]
fn swap_refuses_to_overfill_a_vault() {
    let mut ctx = accounts(u64::MAX - 10, 1_000_000, 30, 1, 5000);
    let before = ctx;
    assert_eq!(ctx.swap(SwapParams { amount_in: 11, minimum_out: 0 }), Err(LpErrors::MathOverflow));
    assert_eq!(ctx, before);
    let mut ctx = accounts(1_000_000, 1_000_000, 30, 1, 5000);
    ctx.user_ata_b.amount = u64::MAX;
    assert_eq!(ctx.swap(SwapParams { amount_in: 1000, minimum_out: 0 }), Err(LpErrors::MathOverflow));
}

#[test]
fn swap_never_lowers_the_product_of_the_reserves() {
    let fees: [u16; 4] = [0, 30, 500, 10_000];
    let amounts: [u64; 6] = [0, 1, 2, 999, 123_456, 10_000_000];
    let reserves: [(u64, u64); 4] = [(1, 1), (1000, 3), (1_000_000, 1_000_000), (7, 5_000_000_000)];
    for fee in fees {
        for amount in amounts {
            for (reserve_a, reserve_b) in reserves {
                for source in [1u8, 2u8] {
                    let mut ctx = accounts(reserve_a, reserve_b, fee, source, amount);
                    let out = ctx.swap(SwapParams { amount_in: amount, minimum_out: 0 });
                    assert!(out.is_ok());
                    let before = (reserve_a as u128) * (reserve_b as u128);
                    let after = (ctx.vault_a.amount as u128) * (ctx.vault_b.amount as u128);
                    assert!(after >= before);
                    assert!(ctx.vault_a.amount > 0 && ctx.vault_b.amount > 0);
                }
            }
        }
    }
}

#[test]
fn handler_and_entry_point_do_what_swap_does() {
    let mut by_method = accounts(1_000_000, 1_000_000, 30, 1, 5000);
    let mut by_handler = by_method;
    let mut by_entry = by_method;
    let params = SwapParams { amount_in: 1000, minimum_out: 996 };
    assert_eq!(by_method.swap(params), Ok(996));
    assert_eq!(handler(&mut by_handler, params), Ok(996));
    assert_eq!(swap_token(&mut by_entry, 1000, 996), Ok(996));
    assert_eq!(by_method, by_handler);
    assert_eq!(by_method, by_entry);
    assert_eq!(swap_token(&mut by_entry, 1000, 997), Err(LpErrors::SlippageExceeded));
}

#[test]
fn direction_follows_the_asset_paid() {
    assert_eq!(accounts(10, 10, 30, 1, 0).find_direction(), Some(Direction::AToB));
    assert_eq!(accounts(10, 10, 30, 2, 0).find_direction(), Some(Direction::BToA));
    assert_eq!(accounts(10, 10, 30, 3, 0).find_direction(), None);
}
