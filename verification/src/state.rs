//! The persistent pool record and the plain values that stand for ledger
//! accounts.

use vstd::prelude::*;

verus! {

/// The 32-byte identifier of an asset, an account or a caller.
#[derive(Clone, Copy, Debug, Eq)]
pub struct Address {
    pub bytes: [u8; 32],
}

impl PartialEq for Address {
    /// Two addresses are equal when all their bytes are.
    fn eq(&self, other: &Address) -> (same: bool) {
        let mut i: usize = 0;
        while i < 32
            invariant
                i <= 32,
                forall|j: int| 0 <= j < i ==> self.bytes@[j] == other.bytes@[j],
            decreases 32 - i,
        {
            if self.bytes[i] != other.bytes[i] {
                return false;
            }
            i += 1;
        }
        assert(self.bytes@ =~= other.bytes@);
        true
    }
}

impl vstd::std_specs::cmp::PartialEqSpecImpl for Address {
    open spec fn obeys_eq_spec() -> bool {
        true
    }

    open spec fn eq_spec(&self, other: &Address) -> bool {
        self.bytes@ == other.bytes@
    }
}

/// A ledger account that holds a balance of one asset.
#[derive(Clone, Copy, Debug, PartialEq, Eq)]
pub struct TokenAccount {
    /// The asset held.
    pub mint: Address,
    /// The balance.
    pub amount: u64,
}

/// The issuing record of a fungible token.
#[derive(Clone, Copy, Debug, PartialEq, Eq)]
pub struct Mint {
    /// How many units are outstanding.
    pub supply: u64,
}

/// The persistent record of one pool.
///
/// The record names the two assets, the vaults that hold their reserves and
/// the share token issued against them. It is written once, when the pool is
/// created, and read by every later operation.
#[derive(Clone, Copy, Debug, PartialEq, Eq)]
pub struct Pool {
    /// The first tradable asset.
    pub mint_a: Address,
    /// The second tradable asset.
    pub mint_b: Address,
    /// The custody account of the first asset's reserve.
    pub vault_a: Address,
    /// The custody account of the second asset's reserve.
    pub vault_b: Address,
    /// The share token issued against the reserves.
    pub lp_mint: Address,
    /// The trade fee, in basis points.
    pub fee_bps: u16,
    /// The protocol's fee rate, in basis points. It is stored and bounded;
    /// no operation collects it.
    pub proto_fee_bps: u16,
    /// Who created the pool.
    pub admin: Address,
    /// The salt of the pool's own address.
    pub bump_pool: u8,
    /// The salt of the pool's signing authority.
    pub bump_auth: u8,
}

/// Whether a supply of shares is backed: where shares are outstanding, both
/// reserves hold something. Every operation keeps a backed pool backed, and
/// on a backed pool no operation meets an empty reserve.
pub open spec fn backed(supply: u64, reserve_a: u64, reserve_b: u64) -> bool {
    supply > 0 ==> reserve_a > 0 && reserve_b > 0
}

/// Whether shares and reserves stand and fall together: no shares are
/// outstanding if and only if both reserves are empty. Deposits and
/// withdrawals keep a pool so.
pub open spec fn consistent(supply: u64, reserve_a: u64, reserve_b: u64) -> bool {
    supply == 0 <==> reserve_a == 0 && reserve_b == 0
}

/// One hundred percent, in basis points.
pub const BPS_DENOMINATOR: u64 = 10_000;

impl Pool {
    /// The record's invariant: two distinct assets, and fee rates that
    /// together take no more than the whole trade.
    pub open spec fn wf(&self) -> bool {
        &&& self.mint_a.bytes@ != self.mint_b.bytes@
        &&& self.fee_bps + self.proto_fee_bps <= BPS_DENOMINATOR
    }
}

} // verus!
