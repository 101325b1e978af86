//! The commitment codec: the bytes that a commitment binds and their digest.
use vstd::prelude::*;
use vstd::bytes::{lemma_auto_spec_u64_to_from_le_bytes, spec_u64_to_le_bytes, u64_to_le_bytes};
use anchor_lang::solana_program::keccak;
use crate::wire::append_bytes;

verus! {

/// The Keccak-256 digest of a byte sequence.
pub uninterp spec fn keccak_of(data: Seq<u8>) -> Seq<u8>;

/// Relies on `solana_program::keccak::hash`: the Keccak-256 digest of the
/// bytes, which depends on the bytes alone.
#[verifier::external_body]
fn keccak256(data: &[u8]) -> (r: [u8; 32])
    ensures
        r@ == keccak_of(data@),
{
    keccak::hash(data).0
}

/// The bytes that a commitment hashes: input asset, output asset, amount in
/// little-endian order, salt.
pub open spec fn commitment_preimage(
    token_in: Seq<u8>,
    token_out: Seq<u8>,
    amount: u64,
    salt: Seq<u8>,
) -> Seq<u8> {
    token_in + token_out + spec_u64_to_le_bytes(amount) + salt
}

/// The digest that commits to the swap parameters and the salt.
pub open spec fn commitment_of(token_in: Seq<u8>, token_out: Seq<u8>, amount: u64, salt: Seq<u8>) -> Seq<u8> {
    keccak_of(commitment_preimage(token_in, token_out, amount, salt))
}

/// Whether `digest` commits to the swap parameters and salt.
pub open spec fn verifies(digest: Seq<u8>, token_in: Seq<u8>, token_out: Seq<u8>, amount: u64, salt: Seq<u8>) -> bool {
    digest == commitment_of(token_in, token_out, amount, salt)
}

/// The byte string that a commitment hashes.
pub fn commitment_bytes(token_in: &[u8; 32], token_out: &[u8; 32], amount: u64, salt: &[u8; 32]) -> (r: Vec<u8>)
    ensures
        r@ == commitment_preimage(token_in@, token_out@, amount, salt@),
        r@.len() == 104,
{
    let mut buf: Vec<u8> = Vec::new();
    append_bytes(&mut buf, token_in);
    append_bytes(&mut buf, token_out);
    let le = u64_to_le_bytes(amount);
    append_bytes(&mut buf, le.as_slice());
    append_bytes(&mut buf, salt);
    assert(buf@ =~= commitment_preimage(token_in@, token_out@, amount, salt@));
    buf
}

/// Builds the commitment to a swap of `amount` of `token_in` for `token_out`,
/// blinded by `salt`.
pub fn build_commitment(token_in: &[u8; 32], token_out: &[u8; 32], amount: u64, salt: &[u8; 32]) -> (r: [u8; 32])
    ensures
        r@ == commitment_of(token_in@, token_out@, amount, salt@),
{
    let buf = commitment_bytes(token_in, token_out, amount, salt);
    keccak256(buf.as_slice())
}

/// Whether two 32-byte values are equal, compared byte by byte.
pub fn digests_equal(a: &[u8; 32], b: &[u8; 32]) -> (r: bool)
    ensures
        r == (a@ == b@),
{
    let mut i: usize = 0;
    while i < 32
        invariant
            i <= 32,
            a@.len() == 32,
            b@.len() == 32,
            a@.subrange(0, i as int) == b@.subrange(0, i as int),
        decreases 32 - i,
    {
        if a[i] != b[i] {
            assert(a@[i as int] != b@[i as int]);
            return false;
        }
        assert(a@.subrange(0, i + 1 as int) == a@.subrange(0, i as int).push(a@[i as int]));
        assert(b@.subrange(0, i + 1 as int) == b@.subrange(0, i as int).push(b@[i as int]));
        i = i + 1;
    }
    assert(a@ == a@.subrange(0, 32));
    assert(b@ == b@.subrange(0, 32));
    true
}

/// Whether `digest` is the commitment to the given swap parameters and salt.
pub fn verify_commitment(
    digest: &[u8; 32],
    token_in: &[u8; 32],
    token_out: &[u8; 32],
    amount: u64,
    salt: &[u8; 32],
) -> (r: bool)
    ensures
        r == verifies(digest@, token_in@, token_out@, amount, salt@),
{
    let recomputed = build_commitment(token_in, token_out, amount, salt);
    digests_equal(&recomputed, digest)
}

/// A commitment built from swap parameters and a salt verifies against the
/// same parameters and salt: the digest that `build_commitment` returns is the
/// one that `verify_commitment` accepts for them.
pub proof fn lemma_commitment_round_trip(token_in: Seq<u8>, token_out: Seq<u8>, amount: u64, salt: Seq<u8>)
    ensures
        verifies(commitment_of(token_in, token_out, amount, salt), token_in, token_out, amount, salt),
{
}

/// Distinct parameters are hashed from distinct bytes: where any of the four
/// 32-byte or 8-byte fields differs, so do the hashed bytes. A commitment then
/// verifies against changed parameters only through a Keccak-256 collision.
pub proof fn lemma_commitment_preimage_injective(
    token_in: Seq<u8>,
    token_out: Seq<u8>,
    amount: u64,
    salt: Seq<u8>,
    token_in2: Seq<u8>,
    token_out2: Seq<u8>,
    amount2: u64,
    salt2: Seq<u8>,
)
    requires
        token_in.len() == 32 && token_out.len() == 32 && salt.len() == 32,
        token_in2.len() == 32 && token_out2.len() == 32 && salt2.len() == 32,
        commitment_preimage(token_in, token_out, amount, salt) == commitment_preimage(
            token_in2,
            token_out2,
            amount2,
            salt2,
        ),
    ensures
        token_in == token_in2,
        token_out == token_out2,
        amount == amount2,
        salt == salt2,
{
    lemma_auto_spec_u64_to_from_le_bytes();
    let p = commitment_preimage(token_in, token_out, amount, salt);
    let p2 = commitment_preimage(token_in2, token_out2, amount2, salt2);
    assert(p.subrange(0, 32) =~= token_in);
    assert(p2.subrange(0, 32) =~= token_in2);
    assert(p.subrange(32, 64) =~= token_out);
    assert(p2.subrange(32, 64) =~= token_out2);
    assert(p.subrange(64, 72) =~= spec_u64_to_le_bytes(amount));
    assert(p2.subrange(64, 72) =~= spec_u64_to_le_bytes(amount2));
    assert(p.subrange(72, 104) =~= salt);
    assert(p2.subrange(72, 104) =~= salt2);
}

} // verus!
