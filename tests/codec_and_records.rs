use dex::authority::{derive_authority, SigningCapability};
use dex::codec::{build_commitment, commitment_bytes, digests_equal, verify_commitment};
use dex::descriptor::{decode_descriptor, encode_descriptor, AccountRef, CallDescriptor};
use dex::error::CustomError;
use dex::record::SESSION_RECORD_LEN;
use dex::session::{commit_swap, reveal_and_swap, Dispatch, RouteParams, SwapCall, SwapSession};
use dex::stored::{reveal_with_stored_call, store_call_descriptor, StoredCallBlob};

const OWNER: [u8; 32] = [1u8; 32];
const TOKEN_A: [u8; 32] = [2u8; 32];
const TOKEN_B: [u8; 32] = [3u8; 32];
const SALT: [u8; 32] = [7u8; 32];
const ROUTER: [u8; 32] = [5u8; 32];
const PROGRAM: [u8; 32] = [11u8; 32];

fn sample_descriptor(target: [u8; 32]) -> CallDescriptor {
    CallDescriptor {
        target,
        accounts: vec![
            AccountRef { key: [30u8; 32], is_signer: false, is_writable: true },
            AccountRef { key: [31u8; 32], is_signer: true, is_writable: false },
            AccountRef { key: [32u8; 32], is_signer: false, is_writable: false },
        ],
        data: vec![9, 8, 7, 6, 5],
    }
}

#[test]
fn commitment_matches_keccak_of_the_layout() {
    let digest = build_commitment(&TOKEN_A, &TOKEN_B, 1_000_000, &SALT);
    let expected: [u8; 32] = [
        155, 11, 105, 41, 109, 175, 243, 18, 218, 219, 63, 44, 169, 15, 69, 35, 74, 9, 81, 227, 70, 8, 224, 156, 162,
        192, 101, 140, 120, 51, 174, 172,
    ];
    let reference = build_commitment(&[1u8; 32], &[2u8; 32], 1_000_000, &[7u8; 32]);
    assert_eq!(reference, expected);
    assert_ne!(digest, expected);
}

#[test]
fn commitment_bytes_follow_the_field_order() {
    let bytes = commitment_bytes(&TOKEN_A, &TOKEN_B, 0x0102030405060708, &SALT);
    assert_eq!(bytes.len(), 104);
    assert_eq!(&bytes[0..32], &TOKEN_A[..]);
    assert_eq!(&bytes[32..64], &TOKEN_B[..]);
    assert_eq!(&bytes[64..72], &[8, 7, 6, 5, 4, 3, 2, 1]);
    assert_eq!(&bytes[72..104], &SALT[..]);
}

#[test]
fn commitment_round_trip_verifies() {
    for amount in [0u64, 1, 999, 1_000_000, u64::MAX] {
        let digest = build_commitment(&TOKEN_A, &TOKEN_B, amount, &SALT);
        assert!(verify_commitment(&digest, &TOKEN_A, &TOKEN_B, amount, &SALT));
    }
}

#[test]
fn single_bit_changes_break_verification() {
    let amount = 1_000_000u64;
    let digest = build_commitment(&TOKEN_A, &TOKEN_B, amount, &SALT);
    for byte in [0usize, 17, 31] {
        for bit in [0u8, 3, 7] {
            let mut a = TOKEN_A;
            a[byte] ^= 1 << bit;
            assert!(!verify_commitment(&digest, &a, &TOKEN_B, amount, &SALT));
            let mut b = TOKEN_B;
            b[byte] ^= 1 << bit;
            assert!(!verify_commitment(&digest, &TOKEN_A, &b, amount, &SALT));
            let mut s = SALT;
            s[byte] ^= 1 << bit;
            assert!(!verify_commitment(&digest, &TOKEN_A, &TOKEN_B, amount, &s));
            let mut d = digest;
            d[byte] ^= 1 << bit;
            assert!(!verify_commitment(&d, &TOKEN_A, &TOKEN_B, amount, &SALT));
        }
    }
    for bit in [0u32, 1, 20, 63] {
        assert!(!verify_commitment(&digest, &TOKEN_A, &TOKEN_B, amount ^ (1u64 << bit), &SALT));
    }
}

#[test]
fn digests_compare_every_byte() {
    let a = [4u8; 32];
    let mut b = a;
    assert!(digests_equal(&a, &b));
    b[31] = 5;
    assert!(!digests_equal(&a, &b));
    b = a;
    b[0] = 0;
    assert!(!digests_equal(&a, &b));
}

#[test]
fn descriptor_round_trip() {
    let d = sample_descriptor(ROUTER);
    let bytes = encode_descriptor(&d);
    assert_eq!(bytes.len(), 32 + 4 + 3 * 34 + 4 + 5);
    assert_eq!(&bytes[32..36], &[3, 0, 0, 0]);
    assert_eq!(bytes[36 + 32], 0);
    assert_eq!(bytes[36 + 33], 1);
    let back = decode_descriptor(&bytes).expect("encoded bytes decode");
    assert_eq!(back.target, d.target);
    assert_eq!(back.accounts.len(), 3);
    for i in 0..3 {
        assert_eq!(back.accounts[i].key, d.accounts[i].key);
        assert_eq!(back.accounts[i].is_signer, d.accounts[i].is_signer);
        assert_eq!(back.accounts[i].is_writable, d.accounts[i].is_writable);
    }
    assert_eq!(back.data, d.data);
}

#[test]
fn empty_descriptor_round_trip() {
    let d = CallDescriptor { target: ROUTER, accounts: vec![], data: vec![] };
    let bytes = encode_descriptor(&d);
    assert_eq!(bytes.len(), 40);
    let back = decode_descriptor(&bytes).unwrap();
    assert!(back.accounts.is_empty());
    assert!(back.data.is_empty());
}

#[test]
fn malformed_descriptors_are_rejected() {
    let bytes = encode_descriptor(&sample_descriptor(ROUTER));
    let mut extra = bytes.clone();
    extra.push(0);
    assert!(decode_descriptor(&extra).is_none());
    assert!(decode_descriptor(&bytes[..bytes.len() - 1]).is_none());
    assert!(decode_descriptor(&bytes[..35]).is_none());
    let mut bad_flag = bytes.clone();
    bad_flag[36 + 32] = 2;
    assert!(decode_descriptor(&bad_flag).is_none());
    let mut too_many = bytes.clone();
    too_many[32] = 200;
    assert!(decode_descriptor(&too_many).is_none());
}

#[test]
fn session_record_round_trip() {
    let s = SwapSession { user: OWNER, commitment: [0xabu8; 32], revealed: true, bump: 251 };
    let bytes = s.to_bytes();
    assert_eq!(bytes.len(), SESSION_RECORD_LEN);
    assert_eq!(bytes[64], 1);
    assert_eq!(bytes[65], 251);
    let back = SwapSession::from_bytes(&bytes).unwrap();
    assert_eq!(back.user, s.user);
    assert_eq!(back.commitment, s.commitment);
    assert!(back.revealed);
    assert_eq!(back.bump, 251);
}

#[test]
fn malformed_session_records_are_rejected() {
    let s = SwapSession { user: OWNER, commitment: [0u8; 32], revealed: false, bump: 3 };
    let mut bytes = s.to_bytes();
    assert!(SwapSession::from_bytes(&bytes[..65]).is_none());
    bytes[64] = 7;
    assert!(SwapSession::from_bytes(&bytes).is_none());
}

#[test]
fn blob_record_round_trip() {
    let blob = StoredCallBlob { user: OWNER, data: vec![1, 2, 3, 4, 5, 6], bump: 9 };
    let bytes = blob.to_bytes();
    assert_eq!(bytes.len(), 32 + 4 + 6 + 1);
    assert_eq!(&bytes[32..36], &[6, 0, 0, 0]);
    let back = StoredCallBlob::from_bytes(&bytes).unwrap();
    assert_eq!(back.user, OWNER);
    assert_eq!(back.data, blob.data);
    assert_eq!(back.bump, 9);
    assert!(StoredCallBlob::from_bytes(&bytes[..bytes.len() - 1]).is_none());
    assert!(StoredCallBlob::from_bytes(&bytes[..20]).is_none());
}

#[test]
fn store_and_replace_call_descriptor() {
    let mut slot: Option<StoredCallBlob> = None;
    assert_eq!(store_call_descriptor(&mut slot, &OWNER, &[1, 2, 3], 77), Ok(()));
    assert_eq!(store_call_descriptor(&mut slot, &OWNER, &[4, 5], 12), Ok(()));
    let blob = slot.clone().unwrap();
    assert_eq!(blob.user, OWNER);
    assert_eq!(blob.data, vec![4, 5]);
    assert_eq!(blob.bump, 77);
    assert_eq!(store_call_descriptor(&mut slot, &[9u8; 32], &[6], 1), Err(CustomError::Unauthorized));
    assert_eq!(slot.unwrap().data, vec![4, 5]);
}

#[test]
fn reveal_through_stored_descriptor() {
    let digest = build_commitment(&TOKEN_A, &TOKEN_B, 5000, &SALT);
    let mut slot: Option<SwapSession> = None;
    commit_swap(&mut slot, &OWNER, &digest, 250).unwrap();
    let mut s = slot.unwrap();

    let mut blob_slot: Option<StoredCallBlob> = None;
    let bytes = encode_descriptor(&sample_descriptor(ROUTER));
    store_call_descriptor(&mut blob_slot, &OWNER, &bytes, 249).unwrap();
    let blob = blob_slot.unwrap();

    let foreign = StoredCallBlob { user: [9u8; 32], data: bytes.clone(), bump: 1 };
    let r = reveal_with_stored_call(&mut s, &foreign, &OWNER, &SALT, &TOKEN_A, &TOKEN_B, 5000, &ROUTER);
    assert_eq!(r.err(), Some(CustomError::Unauthorized));
    assert!(!s.revealed);

    let wrong_router = [6u8; 32];
    let r = reveal_with_stored_call(&mut s, &blob, &OWNER, &SALT, &TOKEN_A, &TOKEN_B, 5000, &wrong_router);
    assert_eq!(r.err(), Some(CustomError::InvalidExternalTarget));
    assert!(!s.revealed);

    let pending = reveal_with_stored_call(&mut s, &blob, &OWNER, &SALT, &TOKEN_A, &TOKEN_B, 5000, &ROUTER).unwrap();
    assert!(s.revealed);
    match pending.call {
        SwapCall::Instruction(d) => assert_eq!(d.data, vec![9, 8, 7, 6, 5]),
        SwapCall::Route { .. } => panic!("a stored descriptor was used"),
    }
}

#[test]
fn derived_authority_is_reproduced_by_its_nonce() {
    let derived = derive_authority(&OWNER, &PROGRAM).unwrap();
    let again = derive_authority(&OWNER, &PROGRAM).unwrap();
    assert_eq!(derived.address, again.address);
    assert_eq!(derived.nonce, again.nonce);
    assert_ne!(derived.address, OWNER);
    assert_ne!(derived.address, PROGRAM);
    let cap = SigningCapability { owner: OWNER, nonce: derived.nonce };
    assert_eq!(cap.address(&PROGRAM), Some(derived.address));
    let other = derive_authority(&[9u8; 32], &PROGRAM).unwrap();
    assert_ne!(other.address, derived.address);
    let other_program = derive_authority(&OWNER, &[12u8; 32]).unwrap();
    assert_ne!(other_program.address, derived.address);
}

#[test]
fn a_different_nonce_does_not_give_the_derived_address() {
    let derived = derive_authority(&OWNER, &PROGRAM).unwrap();
    for nonce in [derived.nonce.wrapping_sub(1), derived.nonce.wrapping_sub(2), 0] {
        let cap = SigningCapability { owner: OWNER, nonce };
        assert_ne!(cap.address(&PROGRAM), Some(derived.address));
    }
}

#[test]
fn error_codes_and_messages() {
    assert_eq!(CustomError::Unauthorized.code(), 6000);
    assert_eq!(CustomError::AlreadyRevealed.code(), 6001);
    assert_eq!(CustomError::CommitmentMismatch.code(), 6002);
    assert_eq!(CustomError::ExternalSwapFailed.code(), 6003);
    assert_eq!(CustomError::SwapNotRevealed.code(), 6004);
    assert_eq!(CustomError::DeserializeFailed.code(), 6005);
    assert_eq!(CustomError::InvalidExternalTarget.code(), 6006);
    assert_eq!(CustomError::Unauthorized.message(), "Unauthorized");
    assert_eq!(CustomError::SwapNotRevealed.message(), "Swap not revealed yet");
}

#[test]
fn route_reveal_hands_out_the_revealed_amount() {
    let digest = build_commitment(&TOKEN_A, &TOKEN_B, 77, &SALT);
    let mut slot: Option<SwapSession> = None;
    commit_swap(&mut slot, &OWNER, &digest, 250).unwrap();
    let mut s = slot.unwrap();
    let dispatch = Dispatch::Route(RouteParams { id: 4, quoted_out_amount: 70, slippage_bps: 100, platform_fee_bps: 2 });
    let pending = reveal_and_swap(&mut s, &OWNER, &SALT, &TOKEN_A, &TOKEN_B, 77, &dispatch, &ROUTER).unwrap();
    match pending.call {
        SwapCall::Route { target, in_amount, route } => {
            assert_eq!(target, ROUTER);
            assert_eq!(in_amount, 77);
            assert_eq!(route.id, 4);
            assert_eq!(route.slippage_bps, 100);
            assert_eq!(route.platform_fee_bps, 2);
        }
        SwapCall::Instruction(_) => panic!("a route was given"),
    }
    assert_eq!(pending.prior.commitment, digest);
    assert!(!pending.prior.revealed);
}
