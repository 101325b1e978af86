//! Persisted layouts. A session record is the owner (32 bytes), the
//! commitment (32 bytes), the revealed flag (one byte, 0 or 1) and the nonce
//! (one byte). A stored-call record is the owner (32 bytes), the length of the
//! call bytes (u32, little-endian), the call bytes, and the nonce.
use vstd::prelude::*;
use vstd::bytes::{lemma_auto_spec_u32_to_from_le_bytes, spec_u32_to_le_bytes, u32_to_le_bytes};
use crate::descriptor::flag_byte;
use crate::wire::{append_bytes, copy_range, read_key, read_u32};
use crate::session::{SessionView, SwapSession};
use crate::stored::StoredCallBlob;

verus! {

/// Size of a session record in bytes.
pub const SESSION_RECORD_LEN: usize = 66;

/// The persisted bytes of a session.
pub open spec fn session_record(s: SessionView) -> Seq<u8> {
    s.user + s.commitment + seq![flag_byte(s.revealed), s.bump]
}

/// Whether a session model has 32-byte owner and commitment, as every stored
/// session has.
pub open spec fn session_shaped(s: SessionView) -> bool {
    s.user.len() == 32 && s.commitment.len() == 32
}

/// The persisted bytes of a stored call descriptor.
pub open spec fn blob_record(user: Seq<u8>, data: Seq<u8>, bump: u8) -> Seq<u8> {
    user + spec_u32_to_le_bytes(data.len() as u32) + data + seq![bump]
}

impl SwapSession {
    /// The session's persisted bytes.
    pub fn to_bytes(&self) -> (r: Vec<u8>)
        ensures
            r@ == session_record(self@),
            r@.len() == SESSION_RECORD_LEN,
    {
        let mut buf: Vec<u8> = Vec::new();
        append_bytes(&mut buf, &self.user);
        append_bytes(&mut buf, &self.commitment);
        buf.push(if self.revealed { 1u8 } else { 0u8 });
        buf.push(self.bump);
        assert(buf@ =~= session_record(self@));
        buf
    }

    /// Reads a session from its persisted bytes. It succeeds exactly on the
    /// bytes of some session.
    pub fn from_bytes(b: &[u8]) -> (r: Option<SwapSession>)
        ensures
            match r {
                Some(s) => session_record(s@) == b@,
                None => forall|v: SessionView| session_shaped(v) ==> #[trigger] session_record(v) != b@,
            },
    {
        if b.len() != SESSION_RECORD_LEN {
            return None;
        }
        let user = read_key(b, 0);
        let commitment = read_key(b, 32);
        let revealed = if b[64] == 0 {
            false
        } else if b[64] == 1 {
            true
        } else {
            proof {
                assert forall|v: SessionView| session_shaped(v) implies #[trigger] session_record(v)
                    != b@ by {
                    if session_record(v) == b@ {
                        assert(session_record(v)[64] == flag_byte(v.revealed));
                    }
                }
            }
            return None;
        };
        let s = SwapSession { user, commitment, revealed, bump: b[65] };
        assert(session_record(s@) =~= b@);
        Some(s)
    }
}

/// Two sessions with the same persisted bytes are the same session.
pub proof fn lemma_session_record_injective(s: SessionView, t: SessionView)
    requires
        session_shaped(s),
        session_shaped(t),
        session_record(s) == session_record(t),
    ensures
        s == t,
{
    let b = session_record(s);
    assert(s.user =~= b.subrange(0, 32));
    assert(t.user =~= b.subrange(0, 32));
    assert(s.commitment =~= b.subrange(32, 64));
    assert(t.commitment =~= b.subrange(32, 64));
    assert(b[64] == flag_byte(s.revealed) && b[64] == flag_byte(t.revealed));
    assert(b[65] == s.bump && b[65] == t.bump);
}

impl StoredCallBlob {
    /// The record's persisted bytes; the call bytes must be counted by a u32.
    pub fn to_bytes(&self) -> (r: Vec<u8>)
        requires
            self.data@.len() <= u32::MAX,
        ensures
            r@ == blob_record(self.user@, self.data@, self.bump),
    {
        let mut buf: Vec<u8> = Vec::new();
        append_bytes(&mut buf, &self.user);
        let len = u32_to_le_bytes(self.data.len() as u32);
        append_bytes(&mut buf, len.as_slice());
        append_bytes(&mut buf, self.data.as_slice());
        buf.push(self.bump);
        assert(buf@ =~= blob_record(self.user@, self.data@, self.bump));
        buf
    }

    /// Reads a stored-call record from its persisted bytes. It succeeds exactly
    /// on the bytes of some record.
    pub fn from_bytes(b: &[u8]) -> (r: Option<StoredCallBlob>)
        ensures
            match r {
                Some(blob) => blob_record(blob.user@, blob.data@, blob.bump) == b@,
                None => forall|u: Seq<u8>, d: Seq<u8>, n: u8|
                    u.len() == 32 && d.len() <= u32::MAX ==> #[trigger] blob_record(u, d, n) != b@,
            },
    {
        proof {
            lemma_auto_spec_u32_to_from_le_bytes();
        }
        let len = b.len();
        if len < 37 {
            return None;
        }
        let count = read_u32(b, 32);
        if len - 37 != count as usize {
            proof {
                assert forall|u: Seq<u8>, d: Seq<u8>, n: u8|
                    u.len() == 32 && d.len() <= u32::MAX implies #[trigger] blob_record(u, d, n) != b@ by {
                    if blob_record(u, d, n) == b@ {
                        assert(b@.subrange(32, 36) =~= spec_u32_to_le_bytes(d.len() as u32));
                    }
                }
            }
            return None;
        }
        let user = read_key(b, 0);
        let data = copy_range(b, 36, len - 1);
        let blob = StoredCallBlob { user, data, bump: b[len - 1] };
        proof {
            assert(spec_u32_to_le_bytes(count) == b@.subrange(32, 36));
            assert(blob_record(blob.user@, blob.data@, blob.bump) =~= b@);
        }
        Some(blob)
    }
}

/// Two stored-call records with the same persisted bytes hold the same owner,
/// call bytes and nonce.
pub proof fn lemma_blob_record_injective(u: Seq<u8>, d: Seq<u8>, n: u8, u2: Seq<u8>, d2: Seq<u8>, n2: u8)
    requires
        u.len() == 32 && d.len() <= u32::MAX,
        u2.len() == 32 && d2.len() <= u32::MAX,
        blob_record(u, d, n) == blob_record(u2, d2, n2),
    ensures
        u == u2,
        d == d2,
        n == n2,
{
    lemma_auto_spec_u32_to_from_le_bytes();
    let b = blob_record(u, d, n);
    assert(b.subrange(32, 36) =~= spec_u32_to_le_bytes(d.len() as u32));
    assert(b.subrange(32, 36) =~= spec_u32_to_le_bytes(d2.len() as u32));
    assert(d.len() == d2.len());
    assert(u =~= b.subrange(0, 32));
    assert(u2 =~= b.subrange(0, 32));
    assert(d =~= b.subrange(36, 36 + d.len() as int));
    assert(d2 =~= b.subrange(36, 36 + d.len() as int));
    assert(b[b.len() - 1] == n && b[b.len() - 1] == n2);
}

} // verus!
