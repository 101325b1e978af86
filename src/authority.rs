//! The delegated authority: an address that only this program can sign for,
//! derived from a namespace tag, the owner's identity and a nonce.
use vstd::prelude::*;
use anchor_lang::solana_program::pubkey::Pubkey;

verus! {

/// The namespace tag under which session addresses are derived: "session".
pub open spec fn session_tag() -> Seq<u8> {
    seq![115u8, 101u8, 115u8, 115u8, 105u8, 111u8, 110u8]
}

/// The namespace tag as bytes.
pub fn session_seed() -> (r: Vec<u8>)
    ensures
        r@ == session_tag(),
{
    let r: Vec<u8> = vec![115u8, 101u8, 115u8, 115u8, 105u8, 111u8, 110u8];
    assert(r@ =~= session_tag());
    r
}

/// The program-derived address for the seeds `[tag, owner, [nonce]]` under
/// `program_id`, or `None` where those seeds give no usable address.
pub uninterp spec fn program_address(tag: Seq<u8>, owner: Seq<u8>, nonce: u8, program_id: Seq<u8>) -> Option<Seq<u8>>;

/// The first nonce, counting down from 255 to 1, for which the seeds
/// `[tag, owner]` give a program-derived address under `program_id`, with that
/// address.
pub uninterp spec fn canonical_program_address(tag: Seq<u8>, owner: Seq<u8>, program_id: Seq<u8>) -> Option<(Seq<u8>, u8)>;

/// Relies on `Pubkey::create_program_address`: it hashes the seeds, the
/// program id and a fixed marker, and fails where the hash lies on the curve or
/// a seed is too long; the outcome depends on its arguments alone.
#[verifier::external_body]
fn create_address(tag: &[u8], owner: &[u8; 32], nonce: u8, program_id: &[u8; 32]) -> (r: Option<[u8; 32]>)
    ensures
        match r {
            Some(a) => program_address(tag@, owner@, nonce, program_id@) == Some(a@),
            None => program_address(tag@, owner@, nonce, program_id@) is None,
        },
{
    let nonce_seed = [nonce];
    let id = Pubkey::new_from_array(*program_id);
    match Pubkey::create_program_address(&[tag, owner, &nonce_seed], &id) {
        Ok(address) => Some(address.to_bytes()),
        Err(_) => None,
    }
}

/// Relies on `Pubkey::try_find_program_address`: it tries the nonces from 255
/// down to 1 and returns the first one, with the address that
/// `create_program_address` gives for it.
#[verifier::external_body]
fn find_address(tag: &[u8], owner: &[u8; 32], program_id: &[u8; 32]) -> (r: Option<([u8; 32], u8)>)
    ensures
        match r {
            Some((a, n)) => {
                &&& canonical_program_address(tag@, owner@, program_id@) == Some((a@, n))
                &&& program_address(tag@, owner@, n, program_id@) == Some(a@)
            },
            None => canonical_program_address(tag@, owner@, program_id@) is None,
        },
{
    let id = Pubkey::new_from_array(*program_id);
    match Pubkey::try_find_program_address(&[tag, owner], &id) {
        Some((address, nonce)) => Some((address.to_bytes(), nonce)),
        None => None,
    }
}

/// A derived authority: the address and the nonce that produced it.
#[derive(Clone, Copy, Debug)]
pub struct DelegatedAuthority {
    pub address: [u8; 32],
    pub nonce: u8,
}

/// Derives the session authority of `owner` under `program_id`: the canonical
/// nonce and its address. The nonce is meant to be stored with the session and
/// reused from then on.
pub fn derive_authority(owner: &[u8; 32], program_id: &[u8; 32]) -> (r: Option<DelegatedAuthority>)
    ensures
        match r {
            Some(d) => {
                &&& canonical_program_address(session_tag(), owner@, program_id@) == Some((d.address@, d.nonce))
                &&& program_address(session_tag(), owner@, d.nonce, program_id@) == Some(d.address@)
            },
            None => canonical_program_address(session_tag(), owner@, program_id@) is None,
        },
{
    let tag = session_seed();
    match find_address(tag.as_slice(), owner, program_id) {
        Some((address, nonce)) => Some(DelegatedAuthority { address, nonce }),
        None => None,
    }
}

/// The proof that this program, and no private key, authorizes a call: the
/// seeds `[session tag, owner, [nonce]]` that the runtime accepts in place of a
/// signature of the derived address.
#[derive(Clone, Copy, Debug)]
pub struct SigningCapability {
    pub owner: [u8; 32],
    pub nonce: u8,
}

impl SigningCapability {
    /// The signer seeds: the session tag, the owner and the nonce.
    pub open spec fn seeds(self) -> Seq<Seq<u8>> {
        seq![session_tag(), self.owner@, seq![self.nonce]]
    }

    /// The signer seeds as byte vectors, in order.
    pub fn signer_seeds(&self) -> (r: Vec<Vec<u8>>)
        ensures
            r@.len() == 3,
            forall|i: int| 0 <= i < 3 ==> #[trigger] r@[i]@ == self.seeds()[i],
    {
        let tag = session_seed();
        let mut owner: Vec<u8> = Vec::new();
        let mut i: usize = 0;
        while i < 32
            invariant
                i <= 32,
                self.owner@.len() == 32,
                owner@ == self.owner@.subrange(0, i as int),
            decreases 32 - i,
        {
            owner.push(self.owner[i]);
            i = i + 1;
            assert(owner@ == self.owner@.subrange(0, i as int));
        }
        assert(owner@ == self.owner@);
        let nonce: Vec<u8> = vec![self.nonce];
        assert(nonce@ =~= seq![self.nonce]);
        let r: Vec<Vec<u8>> = vec![tag, owner, nonce];
        r
    }

    /// The address that these seeds sign for under `program_id`, where they
    /// give one.
    pub fn address(&self, program_id: &[u8; 32]) -> (r: Option<[u8; 32]>)
        ensures
            match r {
                Some(a) => program_address(session_tag(), self.owner@, self.nonce, program_id@) == Some(a@),
                None => program_address(session_tag(), self.owner@, self.nonce, program_id@) is None,
            },
    {
        let tag = session_seed();
        create_address(tag.as_slice(), &self.owner, self.nonce, program_id)
    }
}

} // verus!
