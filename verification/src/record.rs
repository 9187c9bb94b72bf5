//! The byte layout in which a pool's record is kept.
//!
//! One byte that tells the kind of record, then the fields in their order:
//! the five addresses of assets and accounts, the two fee rates as 16-bit
//! little-endian numbers, the administrator's address and the two salts.

use vstd::prelude::*;
use crate::state::{Address, Pool};

verus! {

/// The byte that a pool's record begins with.
pub const RECORD_KIND: u8 = 1;

/// The length of a pool's record: the kind, six addresses, two fee rates
/// and two salts.
pub const RECORD_LEN: usize = 199;

/// A 16-bit number as two bytes, the low one first.
pub open spec fn u16_le(x: u16) -> Seq<u8> {
    seq![(x % 256) as u8, (x / 256) as u8]
}

/// The bytes of a pool's record.
pub open spec fn encoding(pool: Pool) -> Seq<u8> {
    seq![RECORD_KIND] + pool.mint_a.bytes@ + pool.mint_b.bytes@ + pool.vault_a.bytes@
        + pool.vault_b.bytes@ + pool.lp_mint.bytes@ + u16_le(pool.fee_bps) + u16_le(
        pool.proto_fee_bps,
    ) + pool.admin.bytes@ + seq![pool.bump_pool, pool.bump_auth]
}

fn push_address(out: &mut Vec<u8>, address: &Address)
    ensures
        final(out)@ == old(out)@ + address.bytes@,
{
    let mut i: usize = 0;
    while i < 32
        invariant
            i <= 32,
            out@ == old(out)@ + address.bytes@.subrange(0, i as int),
        decreases 32 - i,
    {
        out.push(address.bytes[i]);
        i += 1;
        assert(out@ =~= old(out)@ + address.bytes@.subrange(0, i as int));
    }
    assert(address.bytes@.subrange(0, 32) =~= address.bytes@);
}

fn push_u16(out: &mut Vec<u8>, x: u16)
    ensures
        final(out)@ == old(out)@ + u16_le(x),
{
    out.push((x % 256) as u8);
    out.push((x / 256) as u8);
    assert(out@ =~= old(out)@ + u16_le(x));
}

fn read_address(bytes: &[u8], at: usize) -> (address: Address)
    requires
        at + 32 <= bytes@.len(),
    ensures
        address.bytes@ == bytes@.subrange(at as int, at + 32),
{
    let len: usize = bytes.len();
    let mut read: [u8; 32] = [0u8; 32];
    let mut i: usize = 0;
    while i < 32
        invariant
            i <= 32,
            at + 32 <= len == bytes@.len(),
            forall|j: int| 0 <= j < i ==> read@[j] == bytes@[at + j],
        decreases 32 - i,
    {
        read[i] = bytes[at + i];
        i += 1;
    }
    assert(read@ =~= bytes@.subrange(at as int, at + 32));
    Address { bytes: read }
}

fn read_u16(bytes: &[u8], at: usize) -> (x: u16)
    requires
        at + 2 <= bytes@.len(),
    ensures
        u16_le(x) == bytes@.subrange(at as int, at + 2),
{
    let x: u16 = bytes[at] as u16 + (bytes[at + 1] as u16) * 256;
    assert(u16_le(x) =~= bytes@.subrange(at as int, at + 2));
    x
}

/// Writes a pool's record.
pub fn to_bytes(pool: &Pool) -> (bytes: Vec<u8>)
    ensures
        bytes@ == encoding(*pool),
        bytes@.len() == RECORD_LEN,
{
    let mut out: Vec<u8> = Vec::new();
    out.push(RECORD_KIND);
    assert(out@ =~= seq![RECORD_KIND]);
    push_address(&mut out, &pool.mint_a);
    push_address(&mut out, &pool.mint_b);
    push_address(&mut out, &pool.vault_a);
    push_address(&mut out, &pool.vault_b);
    push_address(&mut out, &pool.lp_mint);
    push_u16(&mut out, pool.fee_bps);
    push_u16(&mut out, pool.proto_fee_bps);
    push_address(&mut out, &pool.admin);
    let ghost before = out@;
    out.push(pool.bump_pool);
    out.push(pool.bump_auth);
    assert(out@ =~= before + seq![pool.bump_pool, pool.bump_auth]);
    out
}

/// Reads a pool's record.
///
/// `None` unless `bytes` has the length of a record and begins with its
/// kind; otherwise the one pool whose record `bytes` is.
pub fn from_bytes(bytes: &[u8]) -> (pool: Option<Pool>)
    ensures
        pool.is_some() <==> bytes@.len() == RECORD_LEN && bytes@[0] == RECORD_KIND,
        pool.is_some() ==> encoding(pool.unwrap()) == bytes@,
{
    if bytes.len() != RECORD_LEN || bytes[0] != RECORD_KIND {
        return None;
    }
    let pool = Pool {
        mint_a: read_address(bytes, 1),
        mint_b: read_address(bytes, 33),
        vault_a: read_address(bytes, 65),
        vault_b: read_address(bytes, 97),
        lp_mint: read_address(bytes, 129),
        fee_bps: read_u16(bytes, 161),
        proto_fee_bps: read_u16(bytes, 163),
        admin: read_address(bytes, 165),
        bump_pool: bytes[197],
        bump_auth: bytes[198],
    };
    assert(encoding(pool) =~= bytes@);
    Some(pool)
}

/// Two pools with the same record are the same pool: the layout loses
/// nothing, and reading what was written gives the pool back.
pub proof fn lemma_encoding_injective(p: Pool, q: Pool)
    requires
        encoding(p) == encoding(q),
    ensures
        p == q,
{
    let e = encoding(p);
    let f = encoding(q);
    assert(e.len() == 199 && f.len() == 199);
    assert(p.mint_a.bytes@ =~= e.subrange(1, 33));
    assert(q.mint_a.bytes@ =~= f.subrange(1, 33));
    assert(p.mint_b.bytes@ =~= e.subrange(33, 65));
    assert(q.mint_b.bytes@ =~= f.subrange(33, 65));
    assert(p.vault_a.bytes@ =~= e.subrange(65, 97));
    assert(q.vault_a.bytes@ =~= f.subrange(65, 97));
    assert(p.vault_b.bytes@ =~= e.subrange(97, 129));
    assert(q.vault_b.bytes@ =~= f.subrange(97, 129));
    assert(p.lp_mint.bytes@ =~= e.subrange(129, 161));
    assert(q.lp_mint.bytes@ =~= f.subrange(129, 161));
    assert(u16_le(p.fee_bps) =~= e.subrange(161, 163));
    assert(u16_le(q.fee_bps) =~= f.subrange(161, 163));
    assert(u16_le(p.proto_fee_bps) =~= e.subrange(163, 165));
    assert(u16_le(q.proto_fee_bps) =~= f.subrange(163, 165));
    assert(p.admin.bytes@ =~= e.subrange(165, 197));
    assert(q.admin.bytes@ =~= f.subrange(165, 197));
    assert(p.bump_pool == e[197] && q.bump_pool == f[197]);
    assert(p.bump_auth == e[198] && q.bump_auth == f[198]);
    assert(u16_le(p.fee_bps)[0] == u16_le(q.fee_bps)[0]);
    assert(u16_le(p.fee_bps)[1] == u16_le(q.fee_bps)[1]);
    assert(u16_le(p.proto_fee_bps)[0] == u16_le(q.proto_fee_bps)[0]);
    assert(u16_le(p.proto_fee_bps)[1] == u16_le(q.proto_fee_bps)[1]);
    assert(p.mint_a.bytes =~= q.mint_a.bytes);
    assert(p.mint_b.bytes =~= q.mint_b.bytes);
    assert(p.vault_a.bytes =~= q.vault_a.bytes);
    assert(p.vault_b.bytes =~= q.vault_b.bytes);
    assert(p.lp_mint.bytes =~= q.lp_mint.bytes);
    assert(p.admin.bytes =~= q.admin.bytes);
}

} // verus!
