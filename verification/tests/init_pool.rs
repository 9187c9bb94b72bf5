use amm::error::LpErrors;
use amm::initialize_pool;
use amm::instructions::init_pool::{find_authority_bump, find_pool_address, handler, InitPool};
use amm::state::{Address, Pool};
use anchor_lang::prelude::Pubkey;

fn key(tag: u8) -> Address {
    Address { bytes: [tag; 32] }
}

fn expected_pool(mint_a: &Address, mint_b: &Address, program_id: &Address) -> (Address, u8) {
    let program = Pubkey::new_from_array(program_id.bytes);
    let (found, bump) = Pubkey::find_program_address(&[b"Pool", &mint_a.bytes, &mint_b.bytes], &program);
    (Address { bytes: found.to_bytes() }, bump)
}

fn expected_bump(pool_key: &Address, program_id: &Address) -> u8 {
    let program = Pubkey::new_from_array(program_id.bytes);
    let (_, bump) = Pubkey::find_program_address(&[b"pool_auth", &pool_key.bytes], &program);
    bump
}

fn accounts_for(mint_a: Address, mint_b: Address, program_id: Address) -> InitPool {
    let (pool_key, bump_pool) = expected_pool(&mint_a, &mint_b, &program_id);
    InitPool {
        signer: key(6),
        mint_a,
        mint_b,
        pool_key,
        pool: None,
        lp_mint: key(5),
        vault_a: key(3),
        vault_b: key(4),
        bump_pool,
        program_id,
    }
}

fn accounts() -> InitPool {
    accounts_for(key(1), key(2), key(9))
}

#[test]
fn creation_writes_the_record() {
    let mut ctx = accounts();
    let pool_key = ctx.pool_key;
    let bump_pool = ctx.bump_pool;
    let bump_auth = expected_bump(&ctx.pool_key, &ctx.program_id);
    assert_eq!(ctx.init_pool(30, 5, bump_pool, key(9)), Ok(pool_key));
    assert_eq!(
        ctx.pool,
        Some(Pool {
            mint_a: key(1),
            mint_b: key(2),
            vault_a: key(3),
            vault_b: key(4),
            lp_mint: key(5),
            fee_bps: 30,
            proto_fee_bps: 5,
            admin: key(6),
            bump_pool,
            bump_auth,
        })
    );
    assert_eq!(InitPool { pool: None, ..ctx }, accounts());
}

#[test]
fn authority_salt_follows_the_pool_and_the_program() {
    let mut seen = Vec::new();
    for tag in 0..40u8 {
        let mut ctx = accounts_for(key(tag), key(tag.wrapping_add(100)), key(tag.wrapping_mul(7).wrapping_add(3)));
        let want = expected_bump(&ctx.pool_key, &ctx.program_id);
        let pool_key = ctx.pool_key;
        assert_eq!(handler(&mut ctx, 30, 0), Ok(pool_key));
        assert_eq!(ctx.pool.unwrap().bump_auth, want);
        assert_eq!(ctx.pool.unwrap().bump_pool, ctx.bump_pool);
        seen.push(want);
    }
    assert!(seen.iter().any(|bump| *bump != seen[0]));
}

#[test]
fn authority_salt_is_found_as_the_ledger_finds_it() {
    let pool_key = Address { bytes: [0xA5; 32] };
    let program = Address { bytes: [0x3C; 32] };
    assert_eq!(find_authority_bump(&pool_key, &program), Some(expected_bump(&pool_key, &program)));
}

#[test]
fn pool_address_is_found_as_the_ledger_finds_it() {
    for tag in 0..20u8 {
        let mint_a = key(tag);
        let mint_b = key(tag.wrapping_add(50));
        let program = key(tag.wrapping_mul(11).wrapping_add(1));
        let found = find_pool_address(&mint_a, &mint_b, &program);
        assert_eq!(found, Some(expected_pool(&mint_a, &mint_b, &program)));
        assert!(found.unwrap().0 != mint_a);
        assert!(found.unwrap().0 != mint_b);
        assert!(found.unwrap().0 != program);
    }
}

#[test]
fn pool_address_depends_on_the_order_of_the_pair() {
    let one_way = find_pool_address(&key(1), &key(2), &key(9)).unwrap();
    let other_way = find_pool_address(&key(2), &key(1), &key(9)).unwrap();
    assert!(one_way.0 != other_way.0);
}

#[test]
fn pool_at_another_address_is_refused() {
    let mut ctx = accounts();
    ctx.pool_key = key(7);
    let before = ctx;
    assert_eq!(initialize_pool(&mut ctx, 30, 5), Err(LpErrors::InvalidInput));
    assert_eq!(ctx, before);
}

#[test]
fn pool_with_another_salt_is_refused() {
    let mut ctx = accounts();
    ctx.bump_pool = ctx.bump_pool.wrapping_sub(1);
    let before = ctx;
    assert_eq!(initialize_pool(&mut ctx, 30, 5), Err(LpErrors::InvalidInput));
    assert_eq!(ctx, before);
}

#[test]
fn pool_under_another_program_is_refused() {
    let mut ctx = accounts();
    ctx.program_id = key(10);
    assert_eq!(initialize_pool(&mut ctx, 30, 5), Err(LpErrors::InvalidInput));
    assert!(ctx.pool.is_none());
}

#[test]
fn record_pool_takes_what_it_is_given() {
    let mut ctx = accounts();
    ctx.pool_key = key(7);
    assert_eq!(ctx.record_pool(30, 5, 251, Some((key(7), 251)), Some(200)), Ok(key(7)));
    assert_eq!(ctx.pool.unwrap().bump_auth, 200);
    assert_eq!(ctx.pool.unwrap().bump_pool, 251);
    assert_eq!(ctx.pool.unwrap().admin, key(6));
}

#[test]
fn record_pool_without_a_salt_fails() {
    let mut ctx = accounts();
    ctx.pool_key = key(7);
    let before = ctx;
    assert_eq!(ctx.record_pool(30, 5, 251, Some((key(7), 251)), None), Err(LpErrors::InvalidInput));
    assert_eq!(ctx, before);
}

#[test]
fn record_pool_without_its_address_fails() {
    let mut ctx = accounts();
    ctx.pool_key = key(7);
    let before = ctx;
    assert_eq!(ctx.record_pool(30, 5, 251, None, Some(200)), Err(LpErrors::InvalidInput));
    assert_eq!(ctx.record_pool(30, 5, 251, Some((key(8), 251)), Some(200)), Err(LpErrors::InvalidInput));
    assert_eq!(ctx.record_pool(30, 5, 251, Some((key(7), 250)), Some(200)), Err(LpErrors::InvalidInput));
    assert_eq!(ctx, before);
}

#[test]
fn second_creation_fails() {
    let mut ctx = accounts();
    let pool_key = ctx.pool_key;
    assert_eq!(initialize_pool(&mut ctx, 30, 5), Ok(pool_key));
    let before = ctx;
    assert_eq!(initialize_pool(&mut ctx, 40, 5), Err(LpErrors::PoolAlreadyExists));
    assert_eq!(ctx, before);
}

#[test]
fn fee_rates_above_the_whole_are_refused() {
    let mut ctx = accounts();
    let pool_key = ctx.pool_key;
    assert_eq!(initialize_pool(&mut ctx, 10_000, 1), Err(LpErrors::InvalidInput));
    assert_eq!(initialize_pool(&mut ctx, 65_535, 65_535), Err(LpErrors::InvalidInput));
    assert_eq!(ctx, accounts());
    assert_eq!(initialize_pool(&mut ctx, 9_999, 1), Ok(pool_key));
}

#[test]
fn pool_of_one_asset_with_itself_is_refused() {
    let mut ctx = accounts_for(key(1), key(1), key(9));
    assert_eq!(initialize_pool(&mut ctx, 30, 5), Err(LpErrors::InvalidInput));
    assert!(ctx.pool.is_none());
}

#[test]
fn addresses_compare_by_all_their_bytes() {
    let mut other = key(1);
    assert!(key(1) == other);
    other.bytes[31] = 2;
    assert!(key(1) != other);
    other = key(1);
    other.bytes[0] = 0;
    assert!(key(1) != other);
}
