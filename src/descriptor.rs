//! Serialized call descriptors: an external call handed over as bytes.
//!
//! Layout: the target program (32 bytes), the number of accounts (u32,
//! little-endian), each account as its key (32 bytes), a signer flag and a
//! writable flag (one byte each, 0 or 1), the payload length (u32,
//! little-endian), then the payload.
use vstd::prelude::*;
use vstd::bytes::{
    lemma_auto_spec_u32_to_from_le_bytes, spec_u32_from_le_bytes, spec_u32_to_le_bytes,
    u32_to_le_bytes,
};
use crate::wire::{append_bytes, copy_range, read_key, read_u32};

verus! {

/// An account that an external call needs, with the access it needs.
#[derive(Clone, Copy, Debug)]
pub struct AccountRef {
    pub key: [u8; 32],
    pub is_signer: bool,
    pub is_writable: bool,
}

/// A decoded call descriptor: the program to call, the accounts it needs and
/// the instruction payload.
#[derive(Clone, Debug)]
pub struct CallDescriptor {
    pub target: [u8; 32],
    pub accounts: Vec<AccountRef>,
    pub data: Vec<u8>,
}

/// A flag as one byte.
pub open spec fn flag_byte(b: bool) -> u8 {
    if b {
        1
    } else {
        0
    }
}

/// The 34 bytes of one account.
pub open spec fn account_bytes(a: AccountRef) -> Seq<u8> {
    a.key@ + seq![flag_byte(a.is_signer), flag_byte(a.is_writable)]
}

/// The accounts, one after the other.
pub open spec fn accounts_bytes(accounts: Seq<AccountRef>) -> Seq<u8>
    decreases accounts.len(),
{
    if accounts.len() == 0 {
        Seq::empty()
    } else {
        accounts_bytes(accounts.drop_last()) + account_bytes(accounts.last())
    }
}

/// Whether a descriptor with these parts can be written: both counts fit in
/// a u32.
pub open spec fn encodable(target: Seq<u8>, accounts: Seq<AccountRef>, data: Seq<u8>) -> bool {
    &&& target.len() == 32
    &&& accounts.len() <= u32::MAX
    &&& data.len() <= u32::MAX
}

/// The serialized form of a descriptor with these parts.
pub open spec fn descriptor_bytes(target: Seq<u8>, accounts: Seq<AccountRef>, data: Seq<u8>) -> Seq<u8> {
    target + spec_u32_to_le_bytes(accounts.len() as u32) + accounts_bytes(accounts)
        + spec_u32_to_le_bytes(data.len() as u32) + data
}

/// Whether `bytes` is the serialized form of some descriptor.
pub open spec fn decodable(bytes: Seq<u8>) -> bool {
    exists|t: Seq<u8>, a: Seq<AccountRef>, d: Seq<u8>|
        encodable(t, a, d) && #[trigger] descriptor_bytes(t, a, d) == bytes
}

impl CallDescriptor {
    /// The serialized form of this descriptor.
    pub open spec fn spec_bytes(&self) -> Seq<u8> {
        descriptor_bytes(self.target@, self.accounts@, self.data@)
    }

    /// Whether this descriptor can be serialized.
    pub open spec fn wf(&self) -> bool {
        encodable(self.target@, self.accounts@, self.data@)
    }
}

proof fn lemma_accounts_bytes_len(accounts: Seq<AccountRef>)
    ensures
        accounts_bytes(accounts).len() == 34 * accounts.len(),
    decreases accounts.len(),
{
    if accounts.len() > 0 {
        lemma_accounts_bytes_len(accounts.drop_last());
    }
}

proof fn lemma_accounts_bytes_at(accounts: Seq<AccountRef>, i: int)
    requires
        0 <= i < accounts.len(),
    ensures
        accounts_bytes(accounts).subrange(34 * i, 34 * i + 34) == account_bytes(accounts[i]),
    decreases accounts.len(),
{
    let init = accounts.drop_last();
    lemma_accounts_bytes_len(init);
    if i < accounts.len() - 1 {
        lemma_accounts_bytes_at(init, i);
        assert(accounts_bytes(accounts).subrange(34 * i, 34 * i + 34) =~= accounts_bytes(
            init,
        ).subrange(34 * i, 34 * i + 34));
    } else {
        assert(accounts_bytes(accounts).subrange(34 * i, 34 * i + 34) =~= account_bytes(
            accounts.last(),
        ));
    }
}

/// Where each part of a serialized descriptor stands.
proof fn lemma_descriptor_layout(t: Seq<u8>, a: Seq<AccountRef>, d: Seq<u8>)
    requires
        encodable(t, a, d),
    ensures
        ({
            let b = descriptor_bytes(t, a, d);
            let n = a.len() as int;
            &&& b.len() == 40 + 34 * n + d.len()
            &&& b.subrange(0, 32) == t
            &&& spec_u32_from_le_bytes(b.subrange(32, 36)) == n
            &&& forall|i: int|
                0 <= i < n ==> #[trigger] b.subrange(36 + 34 * i, 70 + 34 * i) == account_bytes(a[i])
            &&& spec_u32_from_le_bytes(b.subrange(36 + 34 * n, 40 + 34 * n)) == d.len()
            &&& b.subrange(40 + 34 * n, b.len() as int) == d
        }),
{
    lemma_auto_spec_u32_to_from_le_bytes();
    lemma_accounts_bytes_len(a);
    let b = descriptor_bytes(t, a, d);
    let n = a.len() as int;
    let ab = accounts_bytes(a);
    assert(b.subrange(0, 32) =~= t);
    assert(b.subrange(32, 36) =~= spec_u32_to_le_bytes(n as u32));
    assert(b.subrange(36 + 34 * n, 40 + 34 * n) =~= spec_u32_to_le_bytes(d.len() as u32));
    assert(b.subrange(40 + 34 * n, b.len() as int) =~= d);
    assert forall|i: int| 0 <= i < n implies #[trigger] b.subrange(36 + 34 * i, 70 + 34 * i)
        == account_bytes(a[i]) by {
        lemma_accounts_bytes_at(a, i);
        assert(b.subrange(36 + 34 * i, 70 + 34 * i) =~= ab.subrange(34 * i, 34 * i + 34));
    }
}

/// Reads a flag byte: `Some` for 0 or 1, `None` for any other value.
fn read_flag(x: u8) -> (r: Option<bool>)
    ensures
        match r {
            Some(f) => flag_byte(f) == x,
            None => x != 0 && x != 1,
        },
{
    if x == 0 {
        Some(false)
    } else if x == 1 {
        Some(true)
    } else {
        None
    }
}

/// Decodes a serialized call descriptor. It succeeds exactly on the bytes that
/// some descriptor serializes to, and then gives that descriptor.
pub fn decode_descriptor(b: &[u8]) -> (r: Option<CallDescriptor>)
    ensures
        match r {
            Some(d) => d.wf() && d.spec_bytes() == b@,
            None => !decodable(b@),
        },
{
    let len = b.len();
    if len < 36 {
        proof {
            assert forall|t: Seq<u8>, a: Seq<AccountRef>, d: Seq<u8>|
                encodable(t, a, d) implies #[trigger] descriptor_bytes(t, a, d) != b@ by {
                lemma_descriptor_layout(t, a, d);
            }
        }
        return None;
    }
    let target = read_key(b, 0);
    let count = read_u32(b, 32);
    let mut accounts: Vec<AccountRef> = Vec::new();
    let mut pos: usize = 36;
    let mut i: u32 = 0;
    while i < count
        invariant
            36 <= len,
            len == b@.len(),
            i <= count,
            count == spec_u32_from_le_bytes(b@.subrange(32, 36)),
            pos == 36 + 34 * i,
            pos <= len,
            accounts@.len() == i,
            accounts_bytes(accounts@) == b@.subrange(36, pos as int),
        decreases count - i,
    {
        if len - pos < 34 {
            proof {
                assert forall|t: Seq<u8>, a: Seq<AccountRef>, d: Seq<u8>|
                    encodable(t, a, d) implies #[trigger] descriptor_bytes(t, a, d) != b@ by {
                    lemma_descriptor_layout(t, a, d);
                }
            }
            return None;
        }
        let key = read_key(b, pos);
        let signer = read_flag(b[pos + 32]);
        let writable = read_flag(b[pos + 33]);
        if signer.is_none() || writable.is_none() {
            proof {
                assert forall|t: Seq<u8>, a: Seq<AccountRef>, d: Seq<u8>|
                    encodable(t, a, d) implies #[trigger] descriptor_bytes(t, a, d) != b@ by {
                    lemma_descriptor_layout(t, a, d);
                    if descriptor_bytes(t, a, d) == b@ {
                        let sub = b@.subrange(36 + 34 * i, 70 + 34 * i);
                        assert(sub == account_bytes(a[i as int]));
                        assert(sub[32] == b@[pos + 32]);
                        assert(sub[33] == b@[pos + 33]);
                    }
                }
            }
            return None;
        }
        let account = AccountRef { key, is_signer: signer.unwrap(), is_writable: writable.unwrap() };
        let ghost prev = accounts@;
        accounts.push(account);
        proof {
            assert(accounts@.drop_last() =~= prev);
            assert(account_bytes(account) =~= b@.subrange(pos as int, pos + 34));
            assert(b@.subrange(36, pos + 34) =~= b@.subrange(36, pos as int) + b@.subrange(
                pos as int,
                pos + 34,
            ));
        }
        pos = pos + 34;
        i = i + 1;
    }
    if len - pos < 4 {
        proof {
            assert forall|t: Seq<u8>, a: Seq<AccountRef>, d: Seq<u8>|
                encodable(t, a, d) implies #[trigger] descriptor_bytes(t, a, d) != b@ by {
                lemma_descriptor_layout(t, a, d);
            }
        }
        return None;
    }
    let data_len = read_u32(b, pos);
    if len - pos - 4 != data_len as usize {
        proof {
            assert forall|t: Seq<u8>, a: Seq<AccountRef>, d: Seq<u8>|
                encodable(t, a, d) implies #[trigger] descriptor_bytes(t, a, d) != b@ by {
                lemma_descriptor_layout(t, a, d);
            }
        }
        return None;
    }
    let data = copy_range(b, pos + 4, len);
    let d = CallDescriptor { target, accounts, data };
    proof {
        lemma_auto_spec_u32_to_from_le_bytes();
        assert(spec_u32_to_le_bytes(count) == b@.subrange(32, 36));
        assert(spec_u32_to_le_bytes(data_len) == b@.subrange(pos as int, pos + 4));
        assert(d.spec_bytes() =~= b@);
    }
    Some(d)
}

/// Serializes a call descriptor; both counts must fit in a u32.
pub fn encode_descriptor(d: &CallDescriptor) -> (r: Vec<u8>)
    requires
        d.wf(),
    ensures
        r@ == d.spec_bytes(),
{
    let mut buf: Vec<u8> = Vec::new();
    append_bytes(&mut buf, &d.target);
    let count = u32_to_le_bytes(d.accounts.len() as u32);
    append_bytes(&mut buf, count.as_slice());
    let ghost head = buf@;
    let mut i: usize = 0;
    while i < d.accounts.len()
        invariant
            i <= d.accounts@.len(),
            buf@ == head + accounts_bytes(d.accounts@.subrange(0, i as int)),
        decreases d.accounts@.len() - i,
    {
        let a = d.accounts[i];
        let ghost before = buf@;
        append_bytes(&mut buf, &a.key);
        buf.push(if a.is_signer { 1u8 } else { 0u8 });
        buf.push(if a.is_writable { 1u8 } else { 0u8 });
        proof {
            let sub = d.accounts@.subrange(0, i + 1 as int);
            assert(sub.drop_last() =~= d.accounts@.subrange(0, i as int));
            assert(sub.last() == a);
            assert(buf@ =~= before + account_bytes(a));
        }
        i = i + 1;
    }
    assert(d.accounts@.subrange(0, d.accounts@.len() as int) =~= d.accounts@);
    let data_len = u32_to_le_bytes(d.data.len() as u32);
    append_bytes(&mut buf, data_len.as_slice());
    append_bytes(&mut buf, d.data.as_slice());
    assert(buf@ =~= d.spec_bytes());
    buf
}

/// Decoding undoes encoding: two descriptors that serialize to the same bytes
/// have the same target, accounts and payload, so the descriptor that
/// `decode_descriptor` gives back is the one the bytes were written from.
pub proof fn lemma_descriptor_bytes_injective(
    t: Seq<u8>,
    a: Seq<AccountRef>,
    d: Seq<u8>,
    t2: Seq<u8>,
    a2: Seq<AccountRef>,
    d2: Seq<u8>,
)
    requires
        encodable(t, a, d),
        encodable(t2, a2, d2),
        descriptor_bytes(t, a, d) == descriptor_bytes(t2, a2, d2),
    ensures
        t == t2,
        a == a2,
        d == d2,
{
    lemma_descriptor_layout(t, a, d);
    lemma_descriptor_layout(t2, a2, d2);
    let b = descriptor_bytes(t, a, d);
    assert(a.len() == a2.len());
    assert forall|i: int| 0 <= i < a.len() implies a[i] == a2[i] by {
        let x = a[i];
        let y = a2[i];
        let sub = b.subrange(36 + 34 * i, 70 + 34 * i);
        assert(sub == account_bytes(x));
        assert(sub == account_bytes(y));
        assert(x.key@ =~= sub.subrange(0, 32));
        assert(y.key@ =~= sub.subrange(0, 32));
        assert(x.key =~= y.key);
        assert(sub[32] == flag_byte(x.is_signer) && sub[32] == flag_byte(y.is_signer));
        assert(sub[33] == flag_byte(x.is_writable) && sub[33] == flag_byte(y.is_writable));
    }
    assert(a =~= a2);
}

} // verus!
