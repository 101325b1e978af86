//! Stored call descriptors: a serialized external call that a user stores
//! ahead of a reveal, and the reveal that uses it.
use vstd::prelude::*;
use crate::codec::digests_equal;
use crate::wire::copy_range;
use crate::error::CustomError;
use crate::session::{
    call_matches, reveal_and_swap, reveal_error, Dispatch, DispatchView, PendingSwap, SessionView,
    SwapSession,
};

verus! {

/// A user's stored call descriptor, kept apart from the session: the owner,
/// the serialized call, and the nonce of the record's derived address.
#[derive(Clone, Debug)]
pub struct StoredCallBlob {
    pub user: [u8; 32],
    pub data: Vec<u8>,
    pub bump: u8,
}

/// Stores `bytes` as the user's call descriptor. On an empty slot it creates
/// the record with nonce `bump`; on an existing one it replaces the bytes and
/// keeps the nonce. Only the owner may replace them.
pub fn store_call_descriptor(slot: &mut Option<StoredCallBlob>, user: &[u8; 32], bytes: &[u8], bump: u8) -> (r: Result<(), CustomError>)
    ensures
        match *old(slot) {
            None => {
                &&& r is Ok
                &&& *final(slot) matches Some(b) && b.user@ == user@ && b.data@ == bytes@ && b.bump == bump
            },
            Some(prev) => if prev.user@ != user@ {
                &&& r == Err::<(), CustomError>(CustomError::Unauthorized)
                &&& *final(slot) == *old(slot)
            } else {
                &&& r is Ok
                &&& *final(slot) matches Some(b) && b.user == prev.user && b.data@ == bytes@ && b.bump
                    == prev.bump
            },
        },
{
    let data = copy_range(bytes, 0, bytes.len());
    proof {
        assert(bytes@.subrange(0, bytes@.len() as int) == bytes@);
    }
    match slot {
        None => {
            *slot = Some(StoredCallBlob { user: *user, data, bump });
            Ok(())
        },
        Some(b) => {
            if !digests_equal(&b.user, user) {
                return Err(CustomError::Unauthorized);
            }
            b.data = data;
            Ok(())
        },
    }
}

/// Reveals with the user's stored call descriptor as the dispatch. The record
/// must belong to the caller (`Unauthorized`); the rest is `reveal_and_swap`.
pub fn reveal_with_stored_call(
    session: &mut SwapSession,
    blob: &StoredCallBlob,
    user: &[u8; 32],
    salt: &[u8; 32],
    token_in: &[u8; 32],
    token_out: &[u8; 32],
    amount: u64,
    router: &[u8; 32],
) -> (r: Result<PendingSwap, CustomError>)
    ensures
        blob.user@ != user@ ==> r == Err::<PendingSwap, CustomError>(CustomError::Unauthorized)
            && *final(session) == *old(session),
        blob.user@ == user@ ==> match r {
            Ok(p) => {
                &&& reveal_error(old(session)@, user@, salt@, token_in@, token_out@, amount, DispatchView::Descriptor(blob.data@), router@) is None
                &&& final(session)@ == SessionView { revealed: true, ..old(session)@ }
                &&& call_matches(p.call, DispatchView::Descriptor(blob.data@), router@, amount)
                &&& p.signer.owner@ == old(session).user@
                &&& p.signer.nonce == old(session).bump
                &&& p.prior == *old(session)
            },
            Err(e) => {
                &&& reveal_error(old(session)@, user@, salt@, token_in@, token_out@, amount, DispatchView::Descriptor(blob.data@), router@) == Some(e)
                &&& *final(session) == *old(session)
            },
        },
{
    if !digests_equal(&blob.user, user) {
        return Err(CustomError::Unauthorized);
    }
    let bytes = copy_range(blob.data.as_slice(), 0, blob.data.len());
    proof {
        assert(blob.data@.subrange(0, blob.data@.len() as int) == blob.data@);
    }
    let dispatch = Dispatch::Descriptor(bytes);
    reveal_and_swap(session, user, salt, token_in, token_out, amount, &dispatch, router)
}

} // verus!
