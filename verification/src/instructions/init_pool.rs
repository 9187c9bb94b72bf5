//! Creating the record of a new pool.

use anchor_lang::prelude::Pubkey;
use vstd::prelude::*;
use crate::error::LpErrors;
use crate::state::{Address, Pool, BPS_DENOMINATOR};

verus! {

/// The accounts of one pool creation, and what the caller's environment
/// knows of it.
#[derive(Clone, Copy, Debug, PartialEq, Eq)]
pub struct InitPool {
    /// Who creates the pool.
    pub signer: Address,
    /// The first asset.
    pub mint_a: Address,
    /// The second asset.
    pub mint_b: Address,
    /// The address that the pair of assets gives the pool.
    pub pool_key: Address,
    /// The record at that address: `None` until the pool is created.
    pub pool: Option<Pool>,
    /// The share token provisioned for the pool.
    pub lp_mint: Address,
    /// The vault provisioned for the first asset.
    pub vault_a: Address,
    /// The vault provisioned for the second asset.
    pub vault_b: Address,
    /// The salt of `pool_key`.
    pub bump_pool: u8,
    /// The program that owns the pool.
    pub program_id: Address,
}

/// The address that a program derives from a tag and a list of keys, with
/// the salt that the search for it ended on; `None` where the search finds
/// no address.
pub uninterp spec fn derived_address(tag: Seq<u8>, keys: Seq<Seq<u8>>, program_id: Seq<u8>) -> Option<
    (Seq<u8>, u8),
>;

/// The bytes of each address in a list.
pub open spec fn key_bytes(keys: Seq<Address>) -> Seq<Seq<u8>> {
    keys.map_values(|key: Address| key.bytes@)
}

/// Calls `Pubkey::try_find_program_address` of `anchor_lang` with the seeds
/// `tag` and then each of `keys`, under `program_id`.
///
/// Nothing is proved of this function. Its contract only names the result:
/// the search hashes its arguments and nothing else, so the same arguments
/// always give the same address and salt.
#[verifier::external_body]
fn find_derived_address(tag: &[u8], keys: &[Address], program_id: &Address) -> (found: Option<(Address, u8)>)
    ensures
        found.is_some() == derived_address(tag@, key_bytes(keys@), program_id.bytes@).is_some(),
        found.is_some() ==> derived_address(tag@, key_bytes(keys@), program_id.bytes@) == Some(
            (found.unwrap().0.bytes@, found.unwrap().1),
        ),
{
    let program = Pubkey::new_from_array(program_id.bytes);
    let mut seeds: Vec<&[u8]> = vec![tag];
    for key in keys {
        seeds.push(&key.bytes);
    }
    match Pubkey::try_find_program_address(&seeds, &program) {
        Some((address, bump)) => Some((Address { bytes: address.to_bytes() }, bump)),
        None => None,
    }
}

/// The seed that marks the address of a pool: the text `Pool`.
pub open spec fn pool_seed() -> Seq<u8> {
    seq![80u8, 111u8, 111u8, 108u8]
}

/// The seed that marks the address of a pool's signing authority: the text
/// `pool_auth`.
pub open spec fn authority_seed() -> Seq<u8> {
    seq![112u8, 111u8, 111u8, 108u8, 95u8, 97u8, 117u8, 116u8, 104u8]
}

/// The address of the pool of a pair of assets under `program_id`, with its
/// salt. The order of the pair counts.
pub open spec fn pool_address(mint_a: Seq<u8>, mint_b: Seq<u8>, program_id: Seq<u8>) -> Option<(Seq<u8>, u8)> {
    derived_address(pool_seed(), seq![mint_a, mint_b], program_id)
}

/// The salt with which `program_id` signs for the pool at `pool_key`, or
/// `None` where no salt gives an address that can sign.
pub open spec fn authority_bump(pool_key: Seq<u8>, program_id: Seq<u8>) -> Option<u8> {
    match derived_address(authority_seed(), seq![pool_key], program_id) {
        Some((_, bump)) => Some(bump),
        None => None,
    }
}

/// Whether `found` is the address `key` with the salt `bump`.
pub open spec fn is_keyed(found: Option<(Seq<u8>, u8)>, key: Address, bump: u8) -> bool {
    found == Some((key.bytes@, bump))
}

/// Searches the address of the pool of a pair of assets.
pub fn find_pool_address(mint_a: &Address, mint_b: &Address, program_id: &Address) -> (found: Option<
    (Address, u8),
>)
    ensures
        found.is_some() == pool_address(mint_a.bytes@, mint_b.bytes@, program_id.bytes@).is_some(),
        found.is_some() ==> pool_address(mint_a.bytes@, mint_b.bytes@, program_id.bytes@) == Some(
            (found.unwrap().0.bytes@, found.unwrap().1),
        ),
{
    let tag: [u8; 4] = [80u8, 111u8, 111u8, 108u8];
    let keys: [Address; 2] = [*mint_a, *mint_b];
    assert(tag@ =~= pool_seed());
    assert(key_bytes(keys@) =~= seq![mint_a.bytes@, mint_b.bytes@]);
    find_derived_address(tag.as_slice(), keys.as_slice(), program_id)
}

/// Searches the salt of the signing authority of the pool at `pool_key`.
pub fn find_authority_bump(pool_key: &Address, program_id: &Address) -> (bump: Option<u8>)
    ensures
        bump == authority_bump(pool_key.bytes@, program_id.bytes@),
{
    let tag: [u8; 9] = [112u8, 111u8, 111u8, 108u8, 95u8, 97u8, 117u8, 116u8, 104u8];
    let keys: [Address; 1] = [*pool_key];
    assert(tag@ =~= authority_seed());
    assert(key_bytes(keys@) =~= seq![pool_key.bytes@]);
    match find_derived_address(tag.as_slice(), keys.as_slice(), program_id) {
        Some((_, bump)) => Some(bump),
        None => None,
    }
}

impl InitPool {
    /// The result of [`InitPool::record_pool`]: the pool's address, or the
    /// first of these that applies: a record is already there; the two
    /// assets are one, the fee rates together exceed 100%, the pool's
    /// address is not the one that its pair of assets gives (`keyed`), or no
    /// salt was found for the authority.
    pub open spec fn outcome(&self, fee_bps: u16, proto_fee_bps: u16, keyed: bool, bump_auth: Option<u8>) -> Result<
        Address,
        LpErrors,
    > {
        if self.pool.is_some() {
            Err(LpErrors::PoolAlreadyExists)
        } else if self.mint_a.bytes@ == self.mint_b.bytes@ || fee_bps + proto_fee_bps > BPS_DENOMINATOR
            || !keyed || bump_auth.is_none() {
            Err(LpErrors::InvalidInput)
        } else {
            Ok(self.pool_key)
        }
    }

    /// The record that a creation writes.
    pub open spec fn record(&self, fee_bps: u16, proto_fee_bps: u16, bump_pool: u8, bump_auth: u8) -> Pool {
        Pool {
            mint_a: self.mint_a,
            mint_b: self.mint_b,
            vault_a: self.vault_a,
            vault_b: self.vault_b,
            lp_mint: self.lp_mint,
            fee_bps,
            proto_fee_bps,
            admin: self.signer,
            bump_pool,
            bump_auth,
        }
    }

    /// Writes the pool's record, given what the searches for the pool's
    /// address and for the salt of its authority returned.
    ///
    /// On success the record is [`InitPool::record`], which is well formed,
    /// and nothing else has changed. On failure nothing has changed.
    pub fn record_pool(
        &mut self,
        fee_bps: u16,
        proto_fee_bps: u16,
        bump_pool: u8,
        pool_address: Option<(Address, u8)>,
        bump_auth: Option<u8>,
    ) -> (result: Result<Address, LpErrors>)
        ensures
            result == old(self).outcome(
                fee_bps,
                proto_fee_bps,
                pool_address.is_some() && pool_address.unwrap().0.bytes@ == old(self).pool_key.bytes@
                    && pool_address.unwrap().1 == bump_pool,
                bump_auth,
            ),
            result.is_ok() ==> *final(self) == (InitPool {
                pool: Some(old(self).record(fee_bps, proto_fee_bps, bump_pool, bump_auth.unwrap())),
                ..*old(self)
            }),
            result.is_ok() ==> final(self).pool.unwrap().wf(),
            result.is_err() ==> *final(self) == *old(self),
    {
        if self.pool.is_some() {
            return Err(LpErrors::PoolAlreadyExists);
        }
        if self.mint_a == self.mint_b {
            return Err(LpErrors::InvalidInput);
        }
        if fee_bps as u64 + proto_fee_bps as u64 > BPS_DENOMINATOR {
            return Err(LpErrors::InvalidInput);
        }
        match pool_address {
            Some((key, bump)) => {
                if key != self.pool_key || bump != bump_pool {
                    return Err(LpErrors::InvalidInput);
                }
            },
            None => {
                return Err(LpErrors::InvalidInput);
            },
        }
        let bump_auth = match bump_auth {
            Some(bump) => bump,
            None => {
                return Err(LpErrors::InvalidInput);
            },
        };
        self.pool = Some(
            Pool {
                mint_a: self.mint_a,
                mint_b: self.mint_b,
                vault_a: self.vault_a,
                vault_b: self.vault_b,
                lp_mint: self.lp_mint,
                fee_bps,
                proto_fee_bps,
                admin: self.signer,
                bump_pool,
                bump_auth,
            },
        );
        Ok(self.pool_key)
    }

    /// Creates the pool: searches the address of the pair of assets and the
    /// salt of the pool's signing authority under `program_id`, then writes
    /// the record as [`InitPool::record_pool`] does.
    ///
    /// It succeeds only where `pool_key` and `bump_pool` are what the pair of
    /// assets gives, so that a pair has one pool.
    pub fn init_pool(&mut self, fee_bps: u16, proto_fee_bps: u16, bump_pool: u8, program_id: Address) -> (result:
        Result<Address, LpErrors>)
        ensures
            result == old(self).outcome(
                fee_bps,
                proto_fee_bps,
                is_keyed(
                    pool_address(old(self).mint_a.bytes@, old(self).mint_b.bytes@, program_id.bytes@),
                    old(self).pool_key,
                    bump_pool,
                ),
                authority_bump(old(self).pool_key.bytes@, program_id.bytes@),
            ),
            result.is_ok() ==> *final(self) == (InitPool {
                pool: Some(
                    old(self).record(
                        fee_bps,
                        proto_fee_bps,
                        bump_pool,
                        authority_bump(old(self).pool_key.bytes@, program_id.bytes@).unwrap(),
                    ),
                ),
                ..*old(self)
            }),
            result.is_ok() ==> final(self).pool.unwrap().wf(),
            result.is_err() ==> *final(self) == *old(self),
    {
        let pool_address = find_pool_address(&self.mint_a, &self.mint_b, &program_id);
        let bump_auth = find_authority_bump(&self.pool_key, &program_id);
        self.record_pool(fee_bps, proto_fee_bps, bump_pool, pool_address, bump_auth)
    }
}

/// Runs [`InitPool::init_pool`] with the salt and the program that the
/// accounts carry.
pub fn handler(ctx: &mut InitPool, fee_bps: u16, proto_fee_bps: u16) -> (result: Result<Address, LpErrors>)
    ensures
        result == old(ctx).outcome(
            fee_bps,
            proto_fee_bps,
            is_keyed(
                pool_address(old(ctx).mint_a.bytes@, old(ctx).mint_b.bytes@, old(ctx).program_id.bytes@),
                old(ctx).pool_key,
                old(ctx).bump_pool,
            ),
            authority_bump(old(ctx).pool_key.bytes@, old(ctx).program_id.bytes@),
        ),
        result.is_ok() ==> *final(ctx) == (InitPool {
            pool: Some(
                old(ctx).record(
                    fee_bps,
                    proto_fee_bps,
                    old(ctx).bump_pool,
                    authority_bump(old(ctx).pool_key.bytes@, old(ctx).program_id.bytes@).unwrap(),
                ),
            ),
            ..*old(ctx)
        }),
        result.is_err() ==> *final(ctx) == *old(ctx),
{
    let bump_pool = ctx.bump_pool;
    let program_id = ctx.program_id;
    ctx.init_pool(fee_bps, proto_fee_bps, bump_pool, program_id)
}

} // verus!
