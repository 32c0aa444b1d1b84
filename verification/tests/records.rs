use escrow::address::Address;
use escrow::record::{EscrowAccount, RECORD_SPACE, RECORD_TAG};

fn sample() -> EscrowAccount {
    EscrowAccount {
        maker: Address { bytes: [1; 32] },
        mint_b: Address { bytes: [2; 32] },
        amount_b: 50,
        id: 0x0102030405060708,
        escrow_bump: 254,
        vault_bump: 255,
    }
}

fn stored() -> Vec<u8> {
    let mut bytes = vec![36, 69, 48, 18, 128, 225, 125, 135];
    bytes.extend([1u8; 32]);
    bytes.extend([2u8; 32]);
    bytes.extend([50, 0, 0, 0, 0, 0, 0, 0]);
    bytes.extend([8, 7, 6, 5, 4, 3, 2, 1]);
    bytes.extend([254, 255]);
    bytes
}

#[test]
fn the_space_of_a_record() {
    assert_eq!(RECORD_SPACE, 8 + 32 + 32 + 8 + 8 + 1 + 1);
    assert_eq!(RECORD_TAG.len(), 8);
}

#[test]
fn a_record_is_written_field_by_field() {
    assert_eq!(sample().to_bytes(), stored());
    assert_eq!(sample().to_bytes().len(), RECORD_SPACE);
}

#[test]
fn a_record_is_written_as_the_serializer_writes_its_fields() {
    let r = sample();
    let fields = (r.maker.bytes, r.mint_b.bytes, r.amount_b, r.id, r.escrow_bump, r.vault_bump);
    let mut expected = RECORD_TAG.to_vec();
    expected.extend(anchor_lang::prelude::borsh::to_vec(&fields).unwrap());
    assert_eq!(r.to_bytes(), expected);
}

#[test]
fn a_record_is_read_back() {
    assert_eq!(EscrowAccount::from_bytes(&stored()), Some(sample()));
    assert_eq!(EscrowAccount::from_bytes(&sample().to_bytes()), Some(sample()));
}

#[test]
fn the_largest_amounts_survive() {
    let r = EscrowAccount { amount_b: u64::MAX, id: u64::MAX, escrow_bump: 0, ..sample() };
    assert_eq!(EscrowAccount::from_bytes(&r.to_bytes()), Some(r));
}

#[test]
fn bytes_of_another_size_are_no_record() {
    let mut long = stored();
    long.push(0);
    assert_eq!(EscrowAccount::from_bytes(&long), None);
    assert_eq!(EscrowAccount::from_bytes(&stored()[..89]), None);
    assert_eq!(EscrowAccount::from_bytes(&[]), None);
}

#[test]
fn bytes_under_another_tag_are_no_record() {
    for i in 0..8 {
        let mut other = stored();
        other[i] ^= 1;
        assert_eq!(EscrowAccount::from_bytes(&other), None);
    }
}

#[test]
fn every_byte_after_the_tag_counts() {
    for i in 8..RECORD_SPACE {
        let mut other = stored();
        other[i] ^= 1;
        let read = EscrowAccount::from_bytes(&other);
        assert!(read.is_some());
        assert_ne!(read, Some(sample()));
        assert_eq!(read.unwrap().to_bytes(), other);
    }
}
